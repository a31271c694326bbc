//! Labels fitted into rectangles, set in a face of equally wide letters at 96
//! dots per inch.

use std::f64::consts::FRAC_PI_2;
use std::sync::Arc;

use hephaestus::channel::{Channel, ChannelDecl};
use hephaestus::expr::{Cond, Expr, Quantity};
use hephaestus::geom::builder::GeomBuilder;
use hephaestus::geom::error::BuildError;
use hephaestus::geom::label::Label;
use hephaestus::geom::rich::{RichWidth, StyleSheet};
use hephaestus::geom::text_fit::{FitPlan, FitProbe, FitSearch, TextFitGeom};
use hephaestus::num::Num;
use hephaestus::pick::PickId;
use hephaestus::projection::Projection;
use hephaestus::resolve::ScaleOutputs;
use hephaestus::scene::{HAlign, Op, Path, Point, Rect, Spacing, Step, Xform};
use hephaestus::theme::TextFitTheme;
use hephaestus::value::{Color, DataColumn, Value};

/// The number `x`.
fn num(x: f64) -> Num {
    Num::from_bits(x.to_bits())
}

/// The number as the machine holds it.
fn float(x: Num) -> f64 {
    f64::from_bits(x.bits)
}

/// A column of numbers, mapped by the channel's scale.
fn numbers(xs: &[f64]) -> Channel {
    Channel::Data(DataColumn::F64(Arc::new(xs.iter().map(|x| num(*x)).collect())))
}

/// One number for every row.
fn number(x: f64) -> Channel {
    Channel::Constant(Value::Number(num(x)))
}

/// A column of strings.
fn words(xs: &[&str]) -> Channel {
    Channel::Data(DataColumn::String(Arc::new(xs.iter().map(|x| x.to_string()).collect())))
}

/// One string for every row.
fn word(x: &str) -> Channel {
    Channel::Constant(Value::String(x.to_string()))
}

/// One truth value for every row.
fn flag(x: bool) -> Channel {
    Channel::Constant(Value::Bool(x))
}

/// A colour by its parts.
fn rgba(r: f32, g: f32, b: f32, a: f32) -> Color {
    Color { r: r.to_bits(), g: g.to_bits(), b: b.to_bits(), a: a.to_bits() }
}

fn red() -> Color {
    rgba(1.0, 0.0, 0.0, 1.0)
}

/// One colour for every row.
fn ink(c: Color) -> Channel {
    Channel::Constant(Value::Color(c))
}

/// A builder that holds these channels.
fn builder_of(channels: Vec<(&str, Channel)>) -> GeomBuilder {
    let mut b = GeomBuilder::new();
    for (name, channel) in channels {
        b.set(name, channel);
    }
    b
}

/// The geom, or a panic with the reason why there is none.
fn built<T>(r: Result<T, BuildError>) -> T {
    match r {
        Ok(g) => g,
        Err(e) => panic!("{}", e.message("?")),
    }
}

/// What has been measured on the page.
#[derive(Clone)]
struct Measures {
    values: Vec<(Quantity, f64)>,
}

impl Measures {
    /// A panel, at this many dots per inch.
    fn panel(x0: f64, y0: f64, x1: f64, y1: f64, dpi: f64) -> Measures {
        Measures {
            values: vec![
                (Quantity::PanelX0, x0),
                (Quantity::PanelY0, y0),
                (Quantity::PanelX1, x1),
                (Quantity::PanelY1, y1),
                (Quantity::Dpi, dpi),
            ],
        }
    }

    /// The same, with one quantity more.
    fn with(&self, q: Quantity, x: f64) -> Measures {
        let mut values: Vec<(Quantity, f64)> =
            self.values.iter().filter(|(p, _)| *p != q).cloned().collect();
        values.push((q, x));
        Measures { values }
    }

    fn get(&self, q: Quantity) -> f64 {
        match self.values.iter().find(|(p, _)| *p == q) {
            Some((_, x)) => *x,
            None => panic!("{:?} was not measured", q),
        }
    }
}

/// What the expression comes to.
fn value(e: &Expr, m: &Measures) -> f64 {
    match e {
        Expr::Lit(n) => float(*n),
        Expr::Ratio(p, q) => *p as f64 / *q as f64,
        Expr::Var(q) => m.get(*q),
        Expr::Neg(a) => -value(a, m),
        Expr::Add(a, b) => value(a, m) + value(b, m),
        Expr::Sub(a, b) => value(a, m) - value(b, m),
        Expr::Mul(a, b) => value(a, m) * value(b, m),
        Expr::Div(a, b) => value(a, m) / value(b, m),
        Expr::Min(a, b) => value(a, m).min(value(b, m)),
        Expr::Max(a, b) => value(a, m).max(value(b, m)),
        Expr::Clamp(a, lo, hi) => value(a, m).clamp(value(lo, m), value(hi, m)),
        Expr::Abs(a) => value(a, m).abs(),
        Expr::Sin(a) => value(a, m).sin(),
        Expr::Cos(a) => value(a, m).cos(),
        Expr::Sqrt(a) => value(a, m).sqrt(),
        Expr::Atan2(y, x) => value(y, m).atan2(value(x, m)),
        Expr::Select(c, a, b) => {
            if holds(c, m) {
                value(a, m)
            } else {
                value(b, m)
            }
        }
    }
}

/// Whether the condition holds.
fn holds(c: &Cond, m: &Measures) -> bool {
    match c {
        Cond::Always => true,
        Cond::Finite(a) => value(a, m).is_finite(),
        Cond::Gt(a, b) => value(a, m) > value(b, m),
        Cond::Ge(a, b) => value(a, m) >= value(b, m),
        Cond::Eq(a, b) => value(a, m) == value(b, m),
        Cond::Not(a) => !holds(a, m),
        Cond::And(a, b) => holds(a, m) && holds(b, m),
        Cond::Or(a, b) => holds(a, m) || holds(b, m),
    }
}

/// Where the point is.
fn place(p: &Point, m: &Measures) -> (f64, f64) {
    (value(&p.x, m), value(&p.y, m))
}

/// Where the transform takes the point.
fn turned(x: &Xform, p: (f64, f64), m: &Measures) -> (f64, f64) {
    match x {
        Xform::Identity => p,
        Xform::RotateAbout { angle, at } => {
            let (s, c) = value(angle, m).sin_cos();
            let (ax, ay) = place(at, m);
            let (dx, dy) = (p.0 - ax, p.1 - ay);
            (ax + c * dx - s * dy, ay + s * dx + c * dy)
        }
    }
}

/// The names of the declared channels.
fn names_of(decls: &[ChannelDecl]) -> Vec<&str> {
    decls.iter().map(|d| d.name).collect()
}

/// Whether two numbers are the same but for rounding.
fn near(a: f64, b: f64) -> bool {
    (a - b).abs() < 1e-6
}

/// Points along the outline of a path.
fn outline(path: &Path, m: &Measures) -> Vec<(f64, f64)> {
    let arc = |c: (f64, f64), r: f64, start: f64, sweep: f64| -> Vec<(f64, f64)> {
        (0..=720)
            .map(|k| {
                let a = start + sweep * k as f64 / 720.0;
                (c.0 + r * a.cos(), c.1 + r * a.sin())
            })
            .collect()
    };
    match path {
        Path::Wedge { centre, radius, start, sweep } => {
            let c = place(centre, m);
            let mut points = arc(c, value(radius, m), value(start, m), value(sweep, m));
            points.push(c);
            points
        }
        Path::AnnularWedge { centre, inner, outer, start, sweep } => {
            let c = place(centre, m);
            let (a, b) = (value(start, m), value(sweep, m));
            let mut points = arc(c, value(outer, m), a, b);
            points.extend(arc(c, value(inner, m), a + b, -b));
            points
        }
        Path::Rect(r) | Path::RoundedRect(r, _) => {
            let (x0, y0, x1, y1) =
                (value(&r.x0, m), value(&r.y0, m), value(&r.x1, m), value(&r.y1, m));
            vec![(x0, y0), (x1, y0), (x1, y1), (x0, y1)]
        }
    }
}

/// The smallest upright rectangle round some points.
#[derive(Clone, Copy, Debug)]
struct Bounds {
    x0: f64,
    y0: f64,
    x1: f64,
    y1: f64,
}

impl Bounds {
    fn of(points: &[(f64, f64)]) -> Bounds {
        Bounds {
            x0: points.iter().fold(f64::INFINITY, |a, p| a.min(p.0)),
            y0: points.iter().fold(f64::INFINITY, |a, p| a.min(p.1)),
            x1: points.iter().fold(f64::NEG_INFINITY, |a, p| a.max(p.0)),
            y1: points.iter().fold(f64::NEG_INFINITY, |a, p| a.max(p.1)),
        }
    }

    fn width(&self) -> f64 {
        self.x1 - self.x0
    }

    fn height(&self) -> f64 {
        self.y1 - self.y0
    }

    fn cx(&self) -> f64 {
        (self.x0 + self.x1) * 0.5
    }

    fn cy(&self) -> f64 {
        (self.y0 + self.y1) * 0.5
    }
}

/// One letter on the page.
#[derive(Clone, Copy, Debug)]
struct Glyph {
    letter: char,
    red: bool,
}

/// A label, set in a face whose letters are all as wide: four tenths of
/// the font size, on lines of twelve tenths, two of them below the baseline.
#[derive(Clone, Debug)]
struct Setting {
    lines: Vec<Vec<Glyph>>,
    advance: f64,
    size: f64,
    blocks: usize,
}

impl Setting {
    fn width(&self) -> f64 {
        self.lines.iter().fold(0.0, |w: f64, line| w.max(line.len() as f64 * self.advance))
    }

    fn height(&self) -> f64 {
        self.lines.len() as f64 * 1.2 * self.size
    }

    fn descent(&self) -> f64 {
        0.2 * self.size
    }

    fn letters(&self) -> usize {
        self.lines.iter().map(|line| line.len()).sum()
    }

    /// The page, with this label measured on it.
    fn on(&self, m: &Measures) -> Measures {
        m.with(Quantity::TextWidth, self.width())
            .with(Quantity::TextHeight, self.height())
            .with(Quantity::TextDescent, self.descent())
            .with(Quantity::TextAscent, self.size)
    }
}

/// Sets a label at a font size in pixels, within a width if there is one. Of
/// markdown it knows stars, spans in red, and code.
fn set_label(label: &Label, size: f64, dpi: f64, within: Option<f64>) -> Setting {
    let advance = 0.4 * size
        + match label.style.spacing {
            Spacing::Points(n) => float(n) * dpi / 72.0,
            Spacing::Tracking(n) => float(n) / 1000.0 * size,
        };
    let mut text = label.text.clone();
    let mut blocks = 0;
    let mut red = false;
    if label.markdown {
        if text.contains("```") {
            text = text.replace("```", "").trim().to_string();
            blocks = 1;
        }
        if text.starts_with("{.red ") {
            text = text.replace("{.red ", "").replace('}', "");
            red = true;
        }
        if text.contains('`') {
            text = text.replace('`', "");
            blocks = 1;
        }
        text = text.replace('*', "");
    }
    let mut lines = vec![];
    for paragraph in text.split('\n') {
        let mut line: Vec<Glyph> = vec![];
        for word in paragraph.split(' ') {
            let glyphs = word.chars().map(|letter| Glyph { letter, red });
            let full = (line.len() + 1 + word.chars().count()) as f64 * advance;
            if !line.is_empty() && within.map_or(false, |w| full > w) {
                lines.push(line);
                line = vec![];
            }
            if !line.is_empty() {
                line.push(Glyph { letter: ' ', red });
            }
            line.extend(glyphs);
        }
        lines.push(line);
    }
    Setting { lines, advance, size, blocks }
}

/// What is left on the page.
#[derive(Clone, Debug)]
enum Mark {
    Fill { bounds: Bounds, rounded: bool, pick: PickId },
    Stroke { width: f64 },
    Glyphs { xs: Vec<f64>, top: f64, size: f64, red: bool, outlined: bool, pick: PickId },
    PushClip,
    PopLayer,
}

/// What one step leaves on the page, of a label that was set. Rules under and
/// through the lines are fills.
fn mark(step: &Step, label: &Label, set: &Setting, m: &Measures) -> Vec<Mark> {
    if !holds(&step.when, m) {
        return vec![];
    }
    let lines = |at: &Point, xform: &Xform, outlined: bool, pick: PickId| -> Vec<Mark> {
        let (x, y) = turned(xform, place(at, m), m);
        set.lines
            .iter()
            .enumerate()
            .map(|(k, line)| Mark::Glyphs {
                xs: (0..line.len()).map(|j| x + j as f64 * set.advance).collect(),
                top: y + k as f64 * 1.2 * set.size,
                size: set.size,
                red: line.iter().any(|g| g.red),
                outlined,
                pick,
            })
            .collect()
    };
    let rules = |at: &Point, pick: PickId| -> Vec<Mark> {
        let (x, y) = place(at, m);
        let under = label.style.underline as usize + label.style.strikethrough as usize;
        let line = Mark::Fill {
            bounds: Bounds { x0: x, y0: y, x1: x + set.width(), y1: y + 1.0 },
            rounded: false,
            pick,
        };
        vec![line; under * set.lines.len()]
    };
    match &step.op {
        Op::Fill { path, pick, .. } => vec![Mark::Fill {
            bounds: Bounds::of(&outline(path, m)),
            rounded: matches!(path, Path::RoundedRect(..)),
            pick: *pick,
        }],
        Op::Stroke { pen, .. } => vec![Mark::Stroke { width: value(&pen.width, m) }],
        Op::Text { at, xform, pick, .. } => {
            let mut marks = lines(at, xform, false, *pick);
            marks.extend(rules(at, *pick));
            marks
        }
        Op::TextOutline { at, xform, .. } => lines(at, xform, true, PickId::Skip),
        Op::RichText { at, xform, pick } => {
            let (x, y) = place(at, m);
            let block = Mark::Fill {
                bounds: Bounds { x0: x, y0: y, x1: x + set.width(), y1: y + set.height() },
                rounded: false,
                pick: *pick,
            };
            let mut marks = vec![block; set.blocks];
            marks.extend(lines(at, xform, false, *pick));
            marks.extend(rules(at, *pick));
            marks
        }
        Op::PushClip { .. } => vec![Mark::PushClip],
        Op::PopLayer => vec![Mark::PopLayer],
    }
}

fn count_glyph_runs(marks: &[Mark]) -> usize {
    marks.iter().filter(|k| matches!(k, Mark::Glyphs { .. })).count()
}

fn count_letters(marks: &[Mark]) -> usize {
    marks
        .iter()
        .map(|k| match k {
            Mark::Glyphs { xs, .. } => xs.len(),
            _ => 0,
        })
        .sum()
}

fn count_fills(marks: &[Mark]) -> usize {
    marks.iter().filter(|k| matches!(k, Mark::Fill { .. })).count()
}

/// The bounds of the first fill.
fn fill_bbox(marks: &[Mark]) -> Option<Bounds> {
    marks.iter().find_map(|k| match k {
        Mark::Fill { bounds, .. } => Some(*bounds),
        _ => None,
    })
}

/// A style sheet without rules.
fn sheet(id: u64) -> Arc<StyleSheet> {
    Arc::new(StyleSheet::new(id))
}

fn theme() -> TextFitTheme {
    TextFitTheme {
        weight: 400,
        tracking: num(0.0),
        underline: false,
        strikethrough: false,
        min_font_pt: num(6.0),
        max_font_pt: num(72.0),
        fill: None,
        text_stroke: None,
        text_linewidth_pt: num(1.0),
        bg_linewidth_pt: num(1.0),
    }
}

fn fit(channels: Vec<(&str, Channel)>) -> TextFitGeom {
    built(TextFitGeom::build_from(builder_of(channels)))
}

fn black() -> Channel {
    ink(rgba(0.0, 0.0, 0.0, 1.0))
}

/// One label in the rectangle between two points of the panel.
fn boxed(
    a: (f64, f64),
    b: (f64, f64),
    content: &str,
    more: Vec<(&str, Channel)>,
) -> TextFitGeom {
    let mut channels = vec![
        ("x", numbers(&[a.0])),
        ("y", numbers(&[a.1])),
        ("x2", numbers(&[b.0])),
        ("y2", numbers(&[b.1])),
        ("text", words(&[content])),
        ("fill", black()),
    ];
    channels.extend(more);
    fit(channels)
}

/// One row filling most of the panel, as markdown or not.
fn fit_geom(content: &str, markdown: bool) -> TextFitGeom {
    boxed((0.1, 0.3), (0.9, 0.7), content, vec![("markdown", flag(markdown))])
}

fn plans(g: &TextFitGeom) -> Vec<FitPlan> {
    g.draw(&ScaleOutputs::new(), &theme(), &Projection::cartesian())
}

/// Searches for the size of a label, as a painter does: each size that the
/// search asks for is tried, and what it settles on is handed back, with all
/// that was tried.
fn search(plan: &FitPlan, page: &Measures) -> (f32, bool, Vec<f32>) {
    let mut tried = vec![];
    let mut s = FitSearch::start(
        (value(&plan.min_pt, page) as f32).to_bits(),
        (value(&plan.max_pt, page) as f32).to_bits(),
    );
    loop {
        let size = match s.next() {
            FitProbe::At(size) => f32::from_bits(size),
            FitProbe::Between(a, b) => 0.5 * (f32::from_bits(a) + f32::from_bits(b)),
            FitProbe::Draw { size, fits } => return (f32::from_bits(size), fits, tried),
        };
        let set = set_at(plan, size, page);
        tried.push(size);
        s = s.observe(size.to_bits(), holds(&plan.fits, &set.on(page)));
    }
}

fn set_at(plan: &FitPlan, size: f32, page: &Measures) -> Setting {
    let px = size as f64 * 96.0 / 72.0;
    set_label(&plan.label, px, 96.0, Some(value(&plan.label.wrap, page)))
}

fn paint(g: &TextFitGeom, w: f64, h: f64) -> Vec<Mark> {
    let page = Measures::panel(0.0, 0.0, w, h, 96.0);
    let mut out = vec![];
    for plan in plans(g) {
        if !holds(&plan.when, &page) {
            continue;
        }
        let (size, fits, _) = search(&plan, &page);
        let set = set_at(&plan, size, &page);
        let m = set.on(&page);
        let steps = plan.steps(fits);
        out.extend(steps.iter().flat_map(|step| mark(step, &plan.label, &set, &m)));
    }
    out
}

/// Draws into a panel of 600 by 200 pixels.
fn drained(g: &TextFitGeom) -> Vec<Mark> {
    paint(g, 600.0, 200.0)
}

fn first_size(marks: &[Mark]) -> Option<f64> {
    marks.iter().find_map(|k| match k {
        Mark::Glyphs { size, .. } => Some(*size),
        _ => None,
    })
}

fn first_top(marks: &[Mark]) -> Option<f64> {
    marks.iter().find_map(|k| match k {
        Mark::Glyphs { top, .. } => Some(*top),
        _ => None,
    })
}

fn count_clips(marks: &[Mark]) -> usize {
    marks.iter().filter(|k| matches!(k, Mark::PushClip)).count()
}

fn count_pops(marks: &[Mark]) -> usize {
    marks.iter().filter(|k| matches!(k, Mark::PopLayer)).count()
}

#[test]
fn build_requires_text() {
    let r = TextFitGeom::build_from(builder_of(vec![
        ("x", numbers(&[0.0])),
        ("y", numbers(&[0.0])),
        ("x2", numbers(&[1.0])),
        ("y2", numbers(&[1.0])),
    ]));
    assert!(r.is_err());
}

#[test]
fn fit_into_wide_rect_emits_glyphs() {
    let g = boxed((0.1, 0.3), (0.9, 0.7), "abc", vec![]);
    assert!(count_glyph_runs(&paint(&g, 600.0, 200.0)) >= 1, "expected at least one glyph run");
}

#[test]
fn min_font_overflow_pushes_clip_layer() {
    let g = boxed(
        (0.5, 0.5),
        (0.51, 0.55),
        "overflowing text",
        vec![("min_font_size", number(8.0)), ("max_font_size", number(9.0))],
    );
    let marks = paint(&g, 400.0, 200.0);
    assert!(count_clips(&marks) >= 1, "expected a clip");
    assert_eq!(count_clips(&marks), count_pops(&marks), "push and pop must balance");
}

#[test]
fn justify_y_end_shifts_text_to_bottom() {
    let top = |justify: &str| {
        let g = boxed(
            (0.2, 0.05),
            (0.8, 0.95),
            "abc",
            vec![("justify_y", word(justify)), ("max_font_size", number(14.0))],
        );
        first_top(&paint(&g, 400.0, 300.0)).expect("glyphs")
    };
    assert!(top("end") > top("start"), "start = {}, end = {}", top("start"), top("end"));
}

#[test]
fn text_that_already_fits_draws_at_the_maximum_font_size() {
    let g = boxed(
        (0.05, 0.05),
        (0.95, 0.95),
        "ab",
        vec![("min_font_size", number(6.0)), ("max_font_size", number(12.0))],
    );
    let size = first_size(&paint(&g, 600.0, 400.0)).expect("expected glyphs");
    assert!((size - 16.0).abs() < 1e-3, "{}", size);
    let page = Measures::panel(0.0, 0.0, 600.0, 400.0, 96.0);
    assert_eq!(search(&plans(&g)[0], &page), (12.0, true, vec![12.0]));
}

#[test]
fn text_that_never_fits_draws_at_the_minimum_font_size() {
    let g = boxed(
        (0.5, 0.5),
        (0.51, 0.55),
        "overflowing text",
        vec![("min_font_size", number(9.0)), ("max_font_size", number(40.0))],
    );
    let size = first_size(&paint(&g, 400.0, 200.0)).expect("expected glyphs");
    assert!((size - 12.0).abs() < 1e-3, "{}", size);
}

#[test]
fn the_search_lands_between_the_two_bounds_when_only_part_of_the_range_fits() {
    let g = boxed(
        (0.1, 0.4),
        (0.9, 0.6),
        "a fitted label",
        vec![("min_font_size", number(6.0)), ("max_font_size", number(200.0))],
    );
    let marks = paint(&g, 400.0, 200.0);
    let size = first_size(&marks).expect("expected glyphs");
    let px = |pt: f64| pt * 96.0 / 72.0;
    assert!(size > px(6.0) && size < px(200.0), "{}", size);
    assert_eq!(count_clips(&marks), 0);
}

#[test]
fn the_range_is_halved_four_times() {
    let g = boxed(
        (0.1, 0.4),
        (0.9, 0.6),
        "a fitted label",
        vec![("min_font_size", number(6.0)), ("max_font_size", number(70.0))],
    );
    let page = Measures::panel(0.0, 0.0, 400.0, 200.0, 96.0);
    let (size, fits, tried) = search(&plans(&g)[0], &page);
    // One line of 40 pixels takes 25 points, two lines are too tall.
    assert_eq!(tried, vec![70.0, 38.0, 22.0, 30.0, 26.0]);
    assert_eq!((size, fits), (22.0, true));
}

#[test]
fn the_smallest_size_is_tried_before_a_label_is_clipped() {
    let page = Measures::panel(0.0, 0.0, 400.0, 200.0, 96.0);
    let sizes = |min: f64| vec![("min_font_size", number(min)), ("max_font_size", number(200.0))];
    let g = boxed((0.1, 0.4), (0.9, 0.6), "a fitted label", sizes(24.0));
    let (size, fits, tried) = search(&plans(&g)[0], &page);
    assert_eq!(tried, vec![200.0, 112.0, 68.0, 46.0, 35.0, 24.0]);
    assert_eq!((size, fits), (24.0, true));
    assert_eq!(count_clips(&paint(&g, 400.0, 200.0)), 0);

    let g = boxed((0.1, 0.4), (0.9, 0.6), "a fitted label", sizes(40.0));
    let (size, fits, tried) = search(&plans(&g)[0], &page);
    assert_eq!(tried, vec![200.0, 120.0, 80.0, 60.0, 50.0, 40.0]);
    assert_eq!((size, fits), (40.0, false));
    assert_eq!(count_clips(&paint(&g, 400.0, 200.0)), 1);
}

#[test]
fn sizes_below_half_a_point_are_raised() {
    let g = boxed(
        (0.1, 0.3),
        (0.9, 0.7),
        "abc",
        vec![("min_font_size", number(0.0)), ("max_font_size", number(-4.0))],
    );
    let page = Measures::panel(0.0, 0.0, 400.0, 200.0, 96.0);
    let plan = &plans(&g)[0];
    assert_eq!(value(&plan.min_pt, &page), 0.5);
    assert_eq!(value(&plan.max_pt, &page), 0.5);
}

#[test]
fn a_rectangle_without_room_is_skipped() {
    let g = boxed((0.5, 0.3), (0.5, 0.7), "abc", vec![]);
    assert!(drained(&g).is_empty());
    let g = boxed((0.5, 0.3), (f64::NAN, 0.7), "abc", vec![]);
    assert!(drained(&g).is_empty());
}

#[test]
fn corners_may_come_in_any_order() {
    let a = drained(&boxed((0.1, 0.3), (0.9, 0.7), "abc", vec![]));
    let b = drained(&boxed((0.9, 0.7), (0.1, 0.3), "abc", vec![]));
    assert_eq!(first_size(&a), first_size(&b));
    assert_eq!(first_top(&a), first_top(&b));
}

#[test]
fn justify_y_center_places_the_block_midway_through_the_slack() {
    let top = |justify: &str| {
        let g = boxed(
            (0.2, 0.05),
            (0.8, 0.95),
            "abc",
            vec![("justify_y", word(justify)), ("max_font_size", number(14.0))],
        );
        first_top(&paint(&g, 400.0, 300.0)).expect("glyphs")
    };
    let (start, center, end) = (top("start"), top("center"), top("end"));
    assert!(end > start, "start = {}, end = {}", start, end);
    let expected = 0.5 * (start + end);
    assert!((center - expected).abs() < 1e-3, "center = {}, expected = {}", center, expected);
}

#[test]
fn justify_y_frac_covers_the_alignment_vocabulary() {
    // How much of the slack stands above the label.
    let frac = |more: Vec<(&str, Channel)>| {
        let mut channels = vec![("max_font_size", number(14.0))];
        channels.extend(more);
        let g = boxed((0.2, 0.05), (0.8, 0.95), "abc", channels);
        let top = first_top(&paint(&g, 400.0, 300.0)).expect("glyphs");
        let slack = 270.0 - 1.2 * 14.0 * 96.0 / 72.0;
        (top - 15.0) / slack
    };
    let named = |s: &str| frac(vec![("justify_y", word(s))]);
    assert!(near(named("start"), 0.0));
    assert!(near(named("center"), 0.5));
    assert!(near(named("centre"), 0.5));
    assert!(near(named("middle"), 0.5));
    assert!(near(named("end"), 1.0));
    assert!(near(named("sideways"), 0.0));
    assert!(near(frac(vec![]), 0.0));
}

#[test]
fn justify_x_covers_the_alignment_vocabulary() {
    let align = |more: Vec<(&str, Channel)>| {
        plans(&boxed((0.1, 0.3), (0.9, 0.7), "abc", more))[0].label.align
    };
    let named = |s: &str| align(vec![("justify_x", word(s))]);
    assert!(matches!(named("start"), HAlign::Start));
    assert!(matches!(named("center"), HAlign::Center));
    assert!(matches!(named("middle"), HAlign::Center));
    assert!(matches!(named("end"), HAlign::End));
    assert!(matches!(named("justify"), HAlign::Justify));
    assert!(matches!(named("justified"), HAlign::Justify));
    assert!(matches!(named("sideways"), HAlign::Start));
    assert!(matches!(align(vec![]), HAlign::Start));
}

#[test]
fn text_fit_markdown_consumes_the_inline_markup() {
    assert_eq!(count_letters(&drained(&fit_geom("**AB**", false))), 6);
    assert_eq!(count_letters(&drained(&fit_geom("**AB**", true))), 2);
}

#[test]
fn a_markdown_span_paints_its_own_background() {
    let plain = drained(&fit_geom("a `b` c", false));
    let rich = drained(&fit_geom("a `b` c", true));
    assert_eq!(count_fills(&plain), 0, "no background without markdown");
    assert!(count_fills(&rich) >= 1, "the code span should paint a background");
}

#[test]
fn markdown_fits_the_rect_by_shrinking() {
    let font_size = |content: &str| {
        drained(&fit_geom(content, true)).iter().fold(0.0, |a: f64, k| match k {
            Mark::Glyphs { size, .. } => a.max(*size),
            _ => a,
        })
    };
    let short = font_size("**hi**");
    let long = font_size(
        "**a** much longer label that has to shrink a good deal to fit inside the same rect",
    );
    assert!(short > 0.0 && long > 0.0, "{} / {}", short, long);
    assert!(long < short, "{} vs {}", long, short);
}

#[test]
fn markdown_that_never_fits_is_clipped() {
    let g = boxed(
        (0.45, 0.45),
        (0.55, 0.55),
        "**far** too much text for this tiny rect",
        vec![("markdown", flag(true)), ("min_font_size", numbers(&[20.0]))],
    );
    assert!(count_clips(&drained(&g)) >= 1, "expected a clip for the overflow");
}

#[test]
fn justify_y_end_shifts_markdown_to_the_bottom() {
    let baseline_of = |justify_y: &str| {
        let g = boxed(
            (0.1, 0.1),
            (0.9, 0.9),
            "*hi*",
            vec![
                ("markdown", flag(true)),
                ("max_font_size", numbers(&[12.0])),
                ("justify_y", words(&[justify_y])),
            ],
        );
        first_top(&drained(&g)).expect("a glyph") + 16.0
    };
    let top = baseline_of("start");
    let bottom = baseline_of("end");
    assert!(bottom > top + 10.0, "{} to {}", top, bottom);
}

#[test]
fn a_rotated_markdown_label_lands_where_the_plain_one_does() {
    let corner = |markdown: bool| {
        let g = boxed(
            (0.1, 0.3),
            (0.9, 0.7),
            "abc",
            vec![
                ("markdown", flag(markdown)),
                ("max_font_size", numbers(&[24.0])),
                ("angle", numbers(&[FRAC_PI_2])),
            ],
        );
        match &drained(&g)[0] {
            Mark::Glyphs { xs, top, .. } => (xs[0], *top),
            other => panic!("{:?}", other),
        }
    };
    let (px, py) = corner(false);
    let (rx, ry) = corner(true);
    assert!((px - rx).abs() < 2.0 && (py - ry).abs() < 2.0);
    // The corner at (60, 60) turns about the middle, (300, 100).
    assert!(near(px, 260.0) && near(py, 340.0), "({}, {})", px, py);
}

/// Draws a frame, and shapes the markdown of each row at each size that is
/// tried, as a painter would.
fn draw_frame(g: &mut TextFitGeom) -> Vec<Mark> {
    let page = Measures::panel(0.0, 0.0, 600.0, 200.0, 96.0);
    for plan in plans(g) {
        let wrap = value(&plan.label.wrap, &page) as f32;
        let (size, _, mut sizes) = search(&plan, &page);
        sizes.push(size);
        for size in sizes {
            g.shape_row(
                &sheet(1),
                &plan.label,
                num(size as f64),
                0,
                0,
                num(96.0),
                RichWidth::Fixed(wrap.to_bits()),
            );
        }
    }
    drained(g)
}

#[test]
fn the_shape_cache_survives_a_redraw_and_clears_with_the_data() {
    let mut g = fit_geom("**AB** *cd*", true);
    assert!(g.rich_cache.is_empty());
    let first = draw_frame(&mut g);
    let cached = g.rich_cache.len();
    assert!(cached > 0, "the fit should have cached its probes");
    let second = draw_frame(&mut g);
    assert_eq!(g.rich_cache.len(), cached, "a redraw should not shape again");
    assert_eq!(first.len(), second.len());
    g.invalidate_caches();
    assert!(g.rich_cache.is_empty(), "new data drops the shaped runs");
}

#[test]
fn other_images_make_another_shape() {
    let mut g = fit_geom("**AB**", true);
    let label = &plans(&g)[0].label;
    let mut shape = |images: u64| {
        let width = RichWidth::Fixed(480f32.to_bits());
        let (_, place, fresh) = g.shape_row(&sheet(1), label, num(12.0), 0, images, num(96.0), width);
        (place, fresh)
    };
    assert_eq!(shape(7), (0, true));
    assert_eq!(shape(7), (0, false));
    assert_eq!(shape(8), (1, true));
    assert_eq!(shape(7), (0, false));
}

#[test]
fn a_backdrop_stands_behind_the_label() {
    let g = boxed(
        (0.1, 0.3),
        (0.9, 0.7),
        "abc",
        vec![
            ("max_font_size", number(12.0)),
            ("bg_fill", ink(red())),
            ("bg_padding", number(6.0)),
        ],
    );
    let marks = drained(&g);
    assert!(matches!(marks[0], Mark::Fill { .. }));
    let bb = fill_bbox(&marks).expect("fill");
    // Three letters of 6.4 pixels and eight pixels on either side.
    assert!(near(bb.x0, 52.0) && near(bb.width(), 19.2 + 16.0), "{:?}", bb);
    // One line of 19.2 pixels, eight above, and below eight without the descent.
    assert!(near(bb.y0, 52.0) && near(bb.height(), 19.2 + 16.0 - 3.2), "{:?}", bb);
}

#[test]
fn a_clipped_label_turns_its_clip() {
    let g = boxed(
        (0.5, 0.5),
        (0.51, 0.55),
        "overflowing text",
        vec![("angle", number(FRAC_PI_2))],
    );
    let plan = &plans(&g)[0];
    let first = &plan.clipped[0];
    assert!(matches!(&first.op, Op::PushClip { xform: Xform::RotateAbout { .. }, .. }));
    let last = &plan.clipped[plan.clipped.len() - 1];
    assert!(matches!(last.op, Op::PopLayer));
    assert!(plan.clipped.iter().any(|s| matches!(
        &s.op,
        Op::Text { xform: Xform::Identity, .. }
    )));
}

#[test]
fn weights_are_whole_numbers() {
    for (x, weight) in [(430.4, 430), (430.5, 431), (0.2, 1), (4000.0, 1000), (f64::NAN, 1)] {
        let g = boxed((0.1, 0.3), (0.9, 0.7), "abc", vec![("weight", number(x))]);
        assert_eq!(plans(&g)[0].label.style.weight, weight, "{}", x);
    }
}

#[test]
fn a_fitted_geom_can_be_changed_and_counted() {
    let mut g = fit_geom("hi", false);
    assert_eq!(g.kind(), Some("text-fit"));
    assert_eq!(g.len(), 1);
    assert!(!g.is_empty());
    assert!(!g.has_explicit_keys());
    assert!(names_of(g.declared_channels()).contains(&"x2"));
    built(g.set("max_font_size", number(9.0)));
    assert_eq!(first_size(&drained(&g)), Some(12.0));
    let mut b = g.edit();
    b.set("max_font_size", number(12.0));
    built(g.update(b));
    assert_eq!(first_size(&drained(&g)), Some(16.0));
    g.set_rich_sheet(sheet(4));
    assert_eq!(g.sheet_or(&sheet(1)).id, 4);
    g.clear_rich_sheet();
    assert_eq!(g.sheet_or(&sheet(1)).id, 1);
    let g = g.with_rich_sheet(sheet(5));
    assert_eq!(g.sheet_or(&sheet(1)).id, 5);
}

#[test]
fn a_label_is_drawn_at_a_size_that_was_tried() {
    let page = Measures::panel(0.0, 0.0, 400.0, 200.0, 96.0);
    for content in ["a", "a fitted label", "a label that takes rather more room than the others"] {
        let g = boxed(
            (0.1, 0.4),
            (0.9, 0.6),
            content,
            vec![("min_font_size", number(6.0)), ("max_font_size", number(90.0))],
        );
        let plan = &plans(&g)[0];
        let (size, fits, tried) = search(plan, &page);
        assert!(tried.len() <= 1 + 4 + 1);
        assert!(tried.contains(&size));
        if fits {
            // Drawn there, it lies inside its rectangle.
            let set = set_at(plan, size, &page);
            assert!(set.width() <= 320.0 && set.height() <= 40.0);
            for k in paint(&g, 400.0, 200.0) {
                if let Mark::Glyphs { xs, top, .. } = k {
                    assert!(xs.iter().all(|x| *x >= 40.0 && *x <= 360.0));
                    assert!(top >= 80.0 && top + 1.2 * set.size <= 120.0 + 1e-6);
                }
            }
        } else {
            assert_eq!(size, 6.0);
        }
    }
}
