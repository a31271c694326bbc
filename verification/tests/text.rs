//! Labels at points, set in a face of equally wide letters at 96 dots per
//! inch.

use std::f64::consts::FRAC_PI_2;
use std::collections::HashSet;
use std::sync::Arc;

use hephaestus::channel::{Channel, ChannelDecl};
use hephaestus::expr::{Cond, Expr, Quantity};
use hephaestus::geom::builder::GeomBuilder;
use hephaestus::geom::error::BuildError;
use hephaestus::geom::label::{Label, LabelPlan};
use hephaestus::geom::rich::{RichWidth, StyleSheet};
use hephaestus::geom::text::TextGeom;
use hephaestus::num::Num;
use hephaestus::pick::PickId;
use hephaestus::projection::Projection;
use hephaestus::resolve::{BandPosition, ScaleOutputs};
use hephaestus::scene::{Op, Path, Point, Rect, Spacing, Step, Xform};
use hephaestus::theme::TextTheme;
use hephaestus::value::{Color, DataColumn, Value};

/// The number `x`.
fn num(x: f64) -> Num {
    Num::from_bits(x.to_bits())
}

/// The number as the machine holds it.
fn float(x: Num) -> f64 {
    f64::from_bits(x.bits)
}

/// A column of numbers, mapped by the channel's scale.
fn numbers(xs: &[f64]) -> Channel {
    Channel::Data(DataColumn::F64(Arc::new(xs.iter().map(|x| num(*x)).collect())))
}

/// One number for every row.
fn number(x: f64) -> Channel {
    Channel::Constant(Value::Number(num(x)))
}

/// A column of strings.
fn words(xs: &[&str]) -> Channel {
    Channel::Data(DataColumn::String(Arc::new(xs.iter().map(|x| x.to_string()).collect())))
}

/// One string for every row.
fn word(x: &str) -> Channel {
    Channel::Constant(Value::String(x.to_string()))
}

/// One truth value for every row.
fn flag(x: bool) -> Channel {
    Channel::Constant(Value::Bool(x))
}

/// A column of truth values.
fn flags(xs: &[bool]) -> Channel {
    Channel::Data(DataColumn::Bool(Arc::new(xs.to_vec())))
}

/// A colour by its parts.
fn rgba(r: f32, g: f32, b: f32, a: f32) -> Color {
    Color { r: r.to_bits(), g: g.to_bits(), b: b.to_bits(), a: a.to_bits() }
}

fn red() -> Color {
    rgba(1.0, 0.0, 0.0, 1.0)
}

fn blue() -> Color {
    rgba(0.0, 0.0, 1.0, 1.0)
}

/// One colour for every row.
fn ink(c: Color) -> Channel {
    Channel::Constant(Value::Color(c))
}

/// A builder that holds these channels.
fn builder_of(channels: Vec<(&str, Channel)>) -> GeomBuilder {
    let mut b = GeomBuilder::new();
    for (name, channel) in channels {
        b.set(name, channel);
    }
    b
}

/// The geom, or a panic with the reason why there is none.
fn built<T>(r: Result<T, BuildError>) -> T {
    match r {
        Ok(g) => g,
        Err(e) => panic!("{}", e.message("?")),
    }
}

/// Places that a scale with bands gives, for each row: centre and room.
fn bands(xs: &[(f64, f64)]) -> Arc<Vec<BandPosition>> {
    Arc::new(
        xs.iter()
            .map(|(center, band)| BandPosition { center: num(*center), band: num(*band) })
            .collect(),
    )
}

/// What has been measured on the page.
#[derive(Clone)]
struct Measures {
    values: Vec<(Quantity, f64)>,
}

impl Measures {
    /// A panel, at this many dots per inch.
    fn panel(x0: f64, y0: f64, x1: f64, y1: f64, dpi: f64) -> Measures {
        Measures {
            values: vec![
                (Quantity::PanelX0, x0),
                (Quantity::PanelY0, y0),
                (Quantity::PanelX1, x1),
                (Quantity::PanelY1, y1),
                (Quantity::Dpi, dpi),
            ],
        }
    }

    /// The same, with one quantity more.
    fn with(&self, q: Quantity, x: f64) -> Measures {
        let mut values: Vec<(Quantity, f64)> =
            self.values.iter().filter(|(p, _)| *p != q).cloned().collect();
        values.push((q, x));
        Measures { values }
    }

    fn get(&self, q: Quantity) -> f64 {
        match self.values.iter().find(|(p, _)| *p == q) {
            Some((_, x)) => *x,
            None => panic!("{:?} was not measured", q),
        }
    }
}

/// What the expression comes to.
fn value(e: &Expr, m: &Measures) -> f64 {
    match e {
        Expr::Lit(n) => float(*n),
        Expr::Ratio(p, q) => *p as f64 / *q as f64,
        Expr::Var(q) => m.get(*q),
        Expr::Neg(a) => -value(a, m),
        Expr::Add(a, b) => value(a, m) + value(b, m),
        Expr::Sub(a, b) => value(a, m) - value(b, m),
        Expr::Mul(a, b) => value(a, m) * value(b, m),
        Expr::Div(a, b) => value(a, m) / value(b, m),
        Expr::Min(a, b) => value(a, m).min(value(b, m)),
        Expr::Max(a, b) => value(a, m).max(value(b, m)),
        Expr::Clamp(a, lo, hi) => value(a, m).clamp(value(lo, m), value(hi, m)),
        Expr::Abs(a) => value(a, m).abs(),
        Expr::Sin(a) => value(a, m).sin(),
        Expr::Cos(a) => value(a, m).cos(),
        Expr::Sqrt(a) => value(a, m).sqrt(),
        Expr::Atan2(y, x) => value(y, m).atan2(value(x, m)),
        Expr::Select(c, a, b) => {
            if holds(c, m) {
                value(a, m)
            } else {
                value(b, m)
            }
        }
    }
}

/// Whether the condition holds.
fn holds(c: &Cond, m: &Measures) -> bool {
    match c {
        Cond::Always => true,
        Cond::Finite(a) => value(a, m).is_finite(),
        Cond::Gt(a, b) => value(a, m) > value(b, m),
        Cond::Ge(a, b) => value(a, m) >= value(b, m),
        Cond::Eq(a, b) => value(a, m) == value(b, m),
        Cond::Not(a) => !holds(a, m),
        Cond::And(a, b) => holds(a, m) && holds(b, m),
        Cond::Or(a, b) => holds(a, m) || holds(b, m),
    }
}

/// Where the point is.
fn place(p: &Point, m: &Measures) -> (f64, f64) {
    (value(&p.x, m), value(&p.y, m))
}

/// Where the transform takes the point.
fn turned(x: &Xform, p: (f64, f64), m: &Measures) -> (f64, f64) {
    match x {
        Xform::Identity => p,
        Xform::RotateAbout { angle, at } => {
            let (s, c) = value(angle, m).sin_cos();
            let (ax, ay) = place(at, m);
            let (dx, dy) = (p.0 - ax, p.1 - ay);
            (ax + c * dx - s * dy, ay + s * dx + c * dy)
        }
    }
}

/// The names of the declared channels.
fn names_of(decls: &[ChannelDecl]) -> Vec<&str> {
    decls.iter().map(|d| d.name).collect()
}

/// Whether two numbers are the same but for rounding.
fn near(a: f64, b: f64) -> bool {
    (a - b).abs() < 1e-6
}

/// Points along the outline of a path.
fn outline(path: &Path, m: &Measures) -> Vec<(f64, f64)> {
    let arc = |c: (f64, f64), r: f64, start: f64, sweep: f64| -> Vec<(f64, f64)> {
        (0..=720)
            .map(|k| {
                let a = start + sweep * k as f64 / 720.0;
                (c.0 + r * a.cos(), c.1 + r * a.sin())
            })
            .collect()
    };
    match path {
        Path::Wedge { centre, radius, start, sweep } => {
            let c = place(centre, m);
            let mut points = arc(c, value(radius, m), value(start, m), value(sweep, m));
            points.push(c);
            points
        }
        Path::AnnularWedge { centre, inner, outer, start, sweep } => {
            let c = place(centre, m);
            let (a, b) = (value(start, m), value(sweep, m));
            let mut points = arc(c, value(outer, m), a, b);
            points.extend(arc(c, value(inner, m), a + b, -b));
            points
        }
        Path::Rect(r) | Path::RoundedRect(r, _) => {
            let (x0, y0, x1, y1) =
                (value(&r.x0, m), value(&r.y0, m), value(&r.x1, m), value(&r.y1, m));
            vec![(x0, y0), (x1, y0), (x1, y1), (x0, y1)]
        }
    }
}

/// The smallest upright rectangle round some points.
#[derive(Clone, Copy, Debug)]
struct Bounds {
    x0: f64,
    y0: f64,
    x1: f64,
    y1: f64,
}

impl Bounds {
    fn of(points: &[(f64, f64)]) -> Bounds {
        Bounds {
            x0: points.iter().fold(f64::INFINITY, |a, p| a.min(p.0)),
            y0: points.iter().fold(f64::INFINITY, |a, p| a.min(p.1)),
            x1: points.iter().fold(f64::NEG_INFINITY, |a, p| a.max(p.0)),
            y1: points.iter().fold(f64::NEG_INFINITY, |a, p| a.max(p.1)),
        }
    }

    fn width(&self) -> f64 {
        self.x1 - self.x0
    }

    fn height(&self) -> f64 {
        self.y1 - self.y0
    }

    fn cx(&self) -> f64 {
        (self.x0 + self.x1) * 0.5
    }

    fn cy(&self) -> f64 {
        (self.y0 + self.y1) * 0.5
    }
}

/// One letter on the page.
#[derive(Clone, Copy, Debug)]
struct Glyph {
    letter: char,
    red: bool,
}

/// A label, set in a face whose letters are all as wide: four tenths of
/// the font size, on lines of twelve tenths, two of them below the baseline.
#[derive(Clone, Debug)]
struct Setting {
    lines: Vec<Vec<Glyph>>,
    advance: f64,
    size: f64,
    blocks: usize,
}

impl Setting {
    fn width(&self) -> f64 {
        self.lines.iter().fold(0.0, |w: f64, line| w.max(line.len() as f64 * self.advance))
    }

    fn height(&self) -> f64 {
        self.lines.len() as f64 * 1.2 * self.size
    }

    fn descent(&self) -> f64 {
        0.2 * self.size
    }

    fn letters(&self) -> usize {
        self.lines.iter().map(|line| line.len()).sum()
    }

    /// The page, with this label measured on it.
    fn on(&self, m: &Measures) -> Measures {
        m.with(Quantity::TextWidth, self.width())
            .with(Quantity::TextHeight, self.height())
            .with(Quantity::TextDescent, self.descent())
            .with(Quantity::TextAscent, self.size)
    }
}

/// Sets a label at a font size in pixels, within a width if there is one. Of
/// markdown it knows stars, spans in red, and code.
fn set_label(label: &Label, size: f64, dpi: f64, within: Option<f64>) -> Setting {
    let advance = 0.4 * size
        + match label.style.spacing {
            Spacing::Points(n) => float(n) * dpi / 72.0,
            Spacing::Tracking(n) => float(n) / 1000.0 * size,
        };
    let mut text = label.text.clone();
    let mut blocks = 0;
    let mut red = false;
    if label.markdown {
        if text.contains("```") {
            text = text.replace("```", "").trim().to_string();
            blocks = 1;
        }
        if text.starts_with("{.red ") {
            text = text.replace("{.red ", "").replace('}', "");
            red = true;
        }
        if text.contains('`') {
            text = text.replace('`', "");
            blocks = 1;
        }
        text = text.replace('*', "");
    }
    let mut lines = vec![];
    for paragraph in text.split('\n') {
        let mut line: Vec<Glyph> = vec![];
        for word in paragraph.split(' ') {
            let glyphs = word.chars().map(|letter| Glyph { letter, red });
            let full = (line.len() + 1 + word.chars().count()) as f64 * advance;
            if !line.is_empty() && within.map_or(false, |w| full > w) {
                lines.push(line);
                line = vec![];
            }
            if !line.is_empty() {
                line.push(Glyph { letter: ' ', red });
            }
            line.extend(glyphs);
        }
        lines.push(line);
    }
    Setting { lines, advance, size, blocks }
}

/// What is left on the page.
#[derive(Clone, Debug)]
enum Mark {
    Fill { bounds: Bounds, rounded: bool, pick: PickId },
    Stroke { width: f64 },
    Glyphs { xs: Vec<f64>, top: f64, size: f64, red: bool, outlined: bool, pick: PickId },
    PushClip,
    PopLayer,
}

/// What one step leaves on the page, of a label that was set. Rules under and
/// through the lines are fills.
fn mark(step: &Step, label: &Label, set: &Setting, m: &Measures) -> Vec<Mark> {
    if !holds(&step.when, m) {
        return vec![];
    }
    let lines = |at: &Point, xform: &Xform, outlined: bool, pick: PickId| -> Vec<Mark> {
        let (x, y) = turned(xform, place(at, m), m);
        set.lines
            .iter()
            .enumerate()
            .map(|(k, line)| Mark::Glyphs {
                xs: (0..line.len()).map(|j| x + j as f64 * set.advance).collect(),
                top: y + k as f64 * 1.2 * set.size,
                size: set.size,
                red: line.iter().any(|g| g.red),
                outlined,
                pick,
            })
            .collect()
    };
    let rules = |at: &Point, pick: PickId| -> Vec<Mark> {
        let (x, y) = place(at, m);
        let under = label.style.underline as usize + label.style.strikethrough as usize;
        let line = Mark::Fill {
            bounds: Bounds { x0: x, y0: y, x1: x + set.width(), y1: y + 1.0 },
            rounded: false,
            pick,
        };
        vec![line; under * set.lines.len()]
    };
    match &step.op {
        Op::Fill { path, pick, .. } => vec![Mark::Fill {
            bounds: Bounds::of(&outline(path, m)),
            rounded: matches!(path, Path::RoundedRect(..)),
            pick: *pick,
        }],
        Op::Stroke { pen, .. } => vec![Mark::Stroke { width: value(&pen.width, m) }],
        Op::Text { at, xform, pick, .. } => {
            let mut marks = lines(at, xform, false, *pick);
            marks.extend(rules(at, *pick));
            marks
        }
        Op::TextOutline { at, xform, .. } => lines(at, xform, true, PickId::Skip),
        Op::RichText { at, xform, pick } => {
            let (x, y) = place(at, m);
            let block = Mark::Fill {
                bounds: Bounds { x0: x, y0: y, x1: x + set.width(), y1: y + set.height() },
                rounded: false,
                pick: *pick,
            };
            let mut marks = vec![block; set.blocks];
            marks.extend(lines(at, xform, false, *pick));
            marks.extend(rules(at, *pick));
            marks
        }
        Op::PushClip { .. } => vec![Mark::PushClip],
        Op::PopLayer => vec![Mark::PopLayer],
    }
}

fn count_glyph_runs(marks: &[Mark]) -> usize {
    marks.iter().filter(|k| matches!(k, Mark::Glyphs { .. })).count()
}

fn count_letters(marks: &[Mark]) -> usize {
    marks
        .iter()
        .map(|k| match k {
            Mark::Glyphs { xs, .. } => xs.len(),
            _ => 0,
        })
        .sum()
}

fn count_fills(marks: &[Mark]) -> usize {
    marks.iter().filter(|k| matches!(k, Mark::Fill { .. })).count()
}

fn count_strokes(marks: &[Mark]) -> usize {
    marks.iter().filter(|k| matches!(k, Mark::Stroke { .. })).count()
}

/// The bounds of the first fill.
fn fill_bbox(marks: &[Mark]) -> Option<Bounds> {
    marks.iter().find_map(|k| match k {
        Mark::Fill { bounds, .. } => Some(*bounds),
        _ => None,
    })
}

/// A style sheet without rules.
fn sheet(id: u64) -> Arc<StyleSheet> {
    Arc::new(StyleSheet::new(id))
}

fn theme() -> TextTheme {
    TextTheme {
        size_pt: num(12.0),
        weight: 400,
        letter_spacing_pt: num(0.0),
        underline: false,
        strikethrough: false,
        markdown: false,
        fill: None,
        text_stroke: None,
        text_linewidth_pt: num(1.0),
        anchor_x: num(0.5),
        anchor_y: num(0.5),
        bg_linewidth_pt: num(1.0),
    }
}

fn text(channels: Vec<(&str, Channel)>) -> TextGeom {
    built(TextGeom::build_from(builder_of(channels)))
}

/// One label in the middle of the panel, in red.
fn label(content: &str, more: Vec<(&str, Channel)>) -> TextGeom {
    let mut channels = vec![
        ("x", numbers(&[0.5])),
        ("y", numbers(&[0.5])),
        ("text", words(&[content])),
        ("fill", ink(red())),
    ];
    channels.extend(more);
    text(channels)
}

/// What a plan leaves on the page.
fn marks_of(plan: &LabelPlan, page: &Measures) -> Vec<Mark> {
    let size = float(plan.label.style.size_pt) * 96.0 / 72.0;
    let within = if holds(&plan.label.wraps, page) {
        Some(value(&plan.label.wrap, page))
    } else {
        None
    };
    let set = set_label(&plan.label, size, 96.0, within);
    let m = set.on(page);
    plan.steps.iter().flat_map(|step| mark(step, &plan.label, &set, &m)).collect()
}

fn paint_themed(
    g: &TextGeom,
    w: f64,
    h: f64,
    scales: &ScaleOutputs,
    theme: &TextTheme,
) -> Vec<Mark> {
    let page = Measures::panel(0.0, 0.0, w, h, 96.0);
    g.draw(scales, theme, &Projection::cartesian())
        .iter()
        .flat_map(|plan| marks_of(plan, &page))
        .collect()
}

fn paint_with(g: &TextGeom, w: f64, h: f64, scales: &ScaleOutputs) -> Vec<Mark> {
    paint_themed(g, w, h, scales, &theme())
}

fn paint(g: &TextGeom, w: f64, h: f64) -> Vec<Mark> {
    paint_with(g, w, h, &ScaleOutputs::new())
}

/// Draws a frame, and shapes the markdown of each row as a painter would.
fn draw_frame(g: &mut TextGeom) -> Vec<Mark> {
    let page = Measures::panel(0.0, 0.0, 200.0, 100.0, 96.0);
    let plans = g.draw(&ScaleOutputs::new(), &theme(), &Projection::cartesian());
    for plan in &plans {
        if plan.label.markdown {
            g.shape_row(
                &sheet(1),
                &plan.label,
                plan.label.style.size_pt,
                0,
                num(96.0),
                RichWidth::Natural,
            );
        }
    }
    plans.iter().flat_map(|plan| marks_of(plan, &page)).collect()
}

#[test]
#[should_panic(expected = "missing required channel \"text\"")]
fn missing_text_panics() {
    text(vec![("x", numbers(&[0.5])), ("y", numbers(&[0.5]))]);
}

#[test]
#[should_panic(expected = "missing required channel \"x\"")]
fn text_missing_x_panics() {
    text(vec![("y", numbers(&[0.5])), ("text", words(&["hi"]))]);
}

#[test]
#[should_panic(expected = "does not match")]
fn text_length_mismatch_panics() {
    text(vec![
        ("x", numbers(&[0.5, 0.7])),
        ("y", numbers(&[0.5])),
        ("text", words(&["a", "b"])),
    ]);
}

#[test]
fn a_constant_label_is_rejected() {
    let r = TextGeom::build_from(builder_of(vec![
        ("x", numbers(&[0.5])),
        ("y", numbers(&[0.5])),
        ("text", word("hi")),
    ]));
    match r {
        Err(e) => assert!(e.message("").contains("\"text\" must be data, not constant")),
        Ok(_) => panic!("a label needs a column"),
    }
}

#[test]
fn empty_text_skips_row() {
    assert_eq!(count_glyph_runs(&paint(&label("", vec![]), 200.0, 100.0)), 0);
}

#[test]
fn renders_one_label_per_row() {
    let g = text(vec![
        ("x", numbers(&[0.2, 0.5, 0.8])),
        ("y", numbers(&[0.5, 0.5, 0.5])),
        ("text", words(&["alpha", "beta", "gamma"])),
        ("fill", ink(red())),
    ]);
    let n = count_glyph_runs(&paint(&g, 400.0, 100.0));
    assert!(n >= 3, "got {}", n);
    assert_eq!(n, 3);
}

#[test]
fn text_nonfinite_position_skips_row() {
    let g = text(vec![
        ("x", numbers(&[0.5, f64::NAN])),
        ("y", numbers(&[0.5, 0.5])),
        ("text", words(&["a", "b"])),
        ("fill", ink(red())),
    ]);
    let n = count_glyph_runs(&paint(&g, 200.0, 100.0));
    assert!(n >= 1);
    assert_eq!(n, 1);
}

#[test]
fn default_fill_is_black_when_unbound() {
    let g = text(vec![
        ("x", numbers(&[0.5])),
        ("y", numbers(&[0.5])),
        ("text", words(&["hello"])),
    ]);
    assert!(count_glyph_runs(&paint(&g, 200.0, 100.0)) >= 1);
    let plans = g.draw(&ScaleOutputs::new(), &theme(), &Projection::cartesian());
    assert_eq!(plans[0].label.fill.color, rgba(0.0, 0.0, 0.0, 1.0));
}

#[test]
fn text_pick_id_channel_passes_through_per_row() {
    let g = text(vec![
        ("x", numbers(&[0.2, 0.5, 0.8])),
        ("y", numbers(&[0.5, 0.5, 0.5])),
        ("text", words(&["A", "B", "C"])),
        ("fill", ink(red())),
        ("pick_id", numbers(&[41.0, 42.0, 43.0])),
    ]);
    let picks: HashSet<u32> = paint(&g, 400.0, 100.0)
        .iter()
        .filter_map(|k| match k {
            Mark::Glyphs { pick: PickId::Id(n), .. } => Some(*n),
            _ => None,
        })
        .collect();
    assert_eq!(picks, [41u32, 42, 43].into_iter().collect());
}

#[test]
fn anchor_centre_is_default() {
    let marks = paint(&label("centered", vec![]), 100.0, 100.0);
    assert!(count_glyph_runs(&marks) >= 1);
    // Eight letters of 6.4 pixels, on one line of 19.2 pixels.
    match &marks[0] {
        Mark::Glyphs { xs, top, .. } => {
            assert!(near(xs[0], 50.0 - 4.0 * 6.4), "x = {}", xs[0]);
            assert!(near(*top, 50.0 - 9.6), "top = {}", top);
        }
        other => panic!("{:?}", other),
    }
}

#[test]
fn an_anchor_is_a_fraction_of_the_label() {
    let marks = paint(
        &label("centered", vec![("anchor_x", number(0.0)), ("anchor_y", number(1.0))]),
        100.0,
        100.0,
    );
    match &marks[0] {
        Mark::Glyphs { xs, top, .. } => {
            assert!(near(xs[0], 50.0), "x = {}", xs[0]);
            assert!(near(*top, 50.0 - 19.2), "top = {}", top);
        }
        other => panic!("{:?}", other),
    }
}

#[test]
fn size_scaled_by_dpi() {
    let marks = paint(&label("x", vec![("size", numbers(&[12.0]))]), 200.0, 100.0);
    match &marks[0] {
        Mark::Glyphs { size, .. } => {
            assert!((size - 12.0 * 96.0 / 72.0).abs() < 1e-3, "size = {}", size);
        }
        other => panic!("{:?}", other),
    }
}

#[test]
fn a_label_without_size_is_not_drawn() {
    for x in [0.0, -3.0, f64::NAN, f64::INFINITY] {
        let g = label("x", vec![("size", number(x))]);
        assert!(g.draw(&ScaleOutputs::new(), &theme(), &Projection::cartesian()).is_empty());
    }
}

#[test]
fn text_declared_channels_alphabetical() {
    let g = text(vec![
        ("x", numbers(&[0.0])),
        ("y", numbers(&[0.0])),
        ("text", words(&["x"])),
        ("fill", ink(red())),
    ]);
    let names = names_of(g.declared_channels());
    let mut sorted = names.clone();
    sorted.sort();
    assert_eq!(names, sorted);
    assert!(names.contains(&"text"));
    assert!(!names.contains(&"x2"));
    assert!(!names.contains(&"radius"));
}

#[test]
fn italic_via_string() {
    let g = label("x", vec![("italic", word("italic"))]);
    assert!(count_glyph_runs(&paint(&g, 200.0, 100.0)) >= 1);
    let plans = g.draw(&ScaleOutputs::new(), &theme(), &Projection::cartesian());
    assert!(plans[0].label.style.italic);
    let g = label("x", vec![("italic", flag(false))]);
    let plans = g.draw(&ScaleOutputs::new(), &theme(), &Projection::cartesian());
    assert!(!plans[0].label.style.italic);
}

#[test]
fn whole_weights_are_kept_and_others_round_to_hundreds() {
    for (x, weight) in [
        (400.0, 400),
        (430.0, 430),
        (430.5, 400),
        (460.5, 500),
        (0.5, 1),
        (-5.0, 1),
        (5000.0, 1000),
        (999.5, 900),
        (f64::NAN, 1),
        (f64::INFINITY, 1000),
    ] {
        let g = label("x", vec![("weight", number(x))]);
        let plans = g.draw(&ScaleOutputs::new(), &theme(), &Projection::cartesian());
        assert_eq!(plans[0].label.style.weight, weight, "{}", x);
    }
    let g = label("x", vec![]);
    let plans = g.draw(&ScaleOutputs::new(), &theme(), &Projection::cartesian());
    assert_eq!(plans[0].label.style.weight, 400);
}

#[test]
fn a_weight_between_hundreds_draws_as_the_nearest() {
    let drawn = |weight: f64| {
        let g = label("x", vec![("weight", number(weight)), ("bg_fill", ink(blue()))]);
        format!("{:?}", g.draw(&ScaleOutputs::new(), &theme(), &Projection::cartesian()))
    };
    for (weight, hundred) in [(449.6, 400.0), (450.5, 500.0), (20.5, 100.0), (999.5, 900.0)] {
        assert_eq!(drawn(weight), drawn(hundred));
    }
    assert_ne!(drawn(449.0), drawn(400.0));
}

#[test]
fn markdown_turns_with_its_background() {
    let plans = |more: Vec<(&str, Channel)>| {
        let mut channels = vec![
            ("markdown", flag(true)),
            ("bg_fill", ink(blue())),
            ("bg_stroke", ink(red())),
            ("bg_padding", number(6.0)),
        ];
        channels.extend(more);
        let g = label("*hi*", channels);
        g.draw(&ScaleOutputs::new(), &theme(), &Projection::cartesian())
    };
    let (tilted, upright) = (plans(vec![("angle", number(0.5))]), plans(vec![]));
    assert_eq!((tilted.len(), upright.len()), (1, 1));
    assert_eq!(tilted[0].steps.len(), upright[0].steps.len());
    let m = Measures::panel(0.0, 0.0, 200.0, 100.0, 96.0);
    for (t, u) in tilted[0].steps.iter().zip(&upright[0].steps) {
        let (t_xform, u_xform) = match (&t.op, &u.op) {
            (Op::Fill { xform: a, .. }, Op::Fill { xform: b, .. }) => (a, b),
            (Op::Stroke { xform: a, .. }, Op::Stroke { xform: b, .. }) => (a, b),
            (Op::RichText { xform: a, .. }, Op::RichText { xform: b, .. }) => (a, b),
            other => panic!("{:?}", other),
        };
        assert!(matches!(u_xform, Xform::Identity));
        match t_xform {
            Xform::RotateAbout { angle, at } => {
                assert_eq!(value(angle, &m), -0.5);
                assert_eq!(place(at, &m), (100.0, 50.0));
            }
            other => panic!("{:?}", other),
        }
        // Without the turn the two steps are the same.
        let still = format!("{:?}", t).replace(&format!("{:?}", t_xform), "Identity");
        assert_eq!(still, format!("{:?}", u));
    }
}

#[test]
fn bg_fill_emits_rect_before_glyphs() {
    let g = label("hi", vec![("bg_fill", ink(rgba(0.9, 0.9, 0.7, 1.0)))]);
    let marks = paint(&g, 200.0, 100.0);
    assert_eq!(count_fills(&marks), 1);
    assert!(count_glyph_runs(&marks) >= 1);
    let fill = marks.iter().position(|k| matches!(k, Mark::Fill { .. })).unwrap();
    let glyphs = marks.iter().position(|k| matches!(k, Mark::Glyphs { .. })).unwrap();
    assert!(fill < glyphs, "bg fill should precede glyphs");
}

#[test]
fn bg_stroke_only_emits_stroke_no_fill() {
    let g = label("hi", vec![("bg_stroke", ink(rgba(0.2, 0.2, 0.2, 1.0)))]);
    let marks = paint(&g, 200.0, 100.0);
    assert_eq!(count_fills(&marks), 0);
    assert_eq!(count_strokes(&marks), 1);
}

#[test]
fn bg_unbound_emits_no_rect() {
    let marks = paint(&label("hi", vec![]), 200.0, 100.0);
    assert_eq!(count_fills(&marks), 0);
    assert_eq!(count_strokes(&marks), 0);
    assert!(count_glyph_runs(&marks) >= 1);
}

#[test]
fn bg_padding_extends_rect() {
    let padded = |pt: f64| {
        let g = label("hi", vec![("bg_fill", ink(red())), ("bg_padding", number(pt))]);
        fill_bbox(&paint(&g, 200.0, 100.0)).expect("fill")
    };
    let low = padded(6.0);
    let high = padded(15.0);
    let delta = 2.0 * (15.0 - 6.0) * 96.0 / 72.0;
    assert!((high.width() - low.width() - delta).abs() < 0.5);
    assert!((high.height() - low.height() - delta).abs() < 0.5);
}

#[test]
fn bg_rebalance_reserves_descender_at_zero_padding() {
    let g = label("men", vec![("bg_fill", ink(red()))]);
    let bb = fill_bbox(&paint(&g, 200.0, 100.0)).expect("fill");
    let (text_h, descender) = (1.2 * 16.0, 0.2 * 16.0);
    assert!((bb.height() - (text_h + descender)).abs() < 0.5, "height = {}", bb.height());
}

#[test]
fn padding_over_the_descent_is_left_as_it_is() {
    // One line of 19.2 pixels, of which 3.2 lie below the baseline.
    let cases = [(6.0, 8.0, 8.0), (3.0, 4.0, 4.0), (1.8, 3.2, 0.0), (0.6, 3.2, 0.0)];
    for (pt, above, below) in cases {
        let g = label("men", vec![("bg_fill", ink(red())), ("bg_padding", number(pt))]);
        let marks = paint(&g, 200.0, 100.0);
        let bb = fill_bbox(&marks).expect("fill");
        let height = 1.2 * 16.0 + above + below;
        assert!(near(bb.height(), height), "{}: height = {}", pt, bb.height());
        let top = marks.iter().find_map(|k| match k {
            Mark::Glyphs { top, .. } => Some(*top),
            _ => None,
        });
        assert!(near(top.expect("glyphs") - bb.y0, above), "{}: {:?}", pt, top);
    }
}

#[test]
fn a_markdown_background_reserves_it_too() {
    let g = label("men", vec![("bg_fill", ink(red())), ("markdown", flag(true))]);
    let bb = fill_bbox(&paint(&g, 200.0, 100.0)).expect("fill");
    assert!(near(bb.height(), 1.4 * 16.0), "height = {}", bb.height());
}

#[test]
fn bg_corner_radius_uses_rounded_path() {
    let g = label(
        "hi",
        vec![("bg_fill", ink(rgba(0.9, 0.9, 0.7, 1.0))), ("bg_corner_radius", number(4.0))],
    );
    let rounded = paint(&g, 200.0, 100.0).iter().find_map(|k| match k {
        Mark::Fill { rounded, .. } => Some(*rounded),
        _ => None,
    });
    assert_eq!(rounded, Some(true));
    let g = label("hi", vec![("bg_fill", ink(red())), ("bg_corner_radius", number(-4.0))]);
    let rounded = paint(&g, 200.0, 100.0).iter().find_map(|k| match k {
        Mark::Fill { rounded, .. } => Some(*rounded),
        _ => None,
    });
    assert_eq!(rounded, Some(false));
}

#[test]
fn bg_shares_pick_id_with_glyphs() {
    let g = label("hi", vec![("bg_fill", ink(red())), ("pick_id", number(99.0))]);
    let marks = paint(&g, 200.0, 100.0);
    let bg = marks.iter().find_map(|k| match k {
        Mark::Fill { pick: PickId::Id(n), .. } => Some(*n),
        _ => None,
    });
    let glyphs = marks.iter().find_map(|k| match k {
        Mark::Glyphs { pick: PickId::Id(n), .. } => Some(*n),
        _ => None,
    });
    assert_eq!(bg, Some(99));
    assert_eq!(glyphs, Some(99));
}

#[test]
fn width_pt_constrains_layout_height() {
    let long = "Lorem ipsum dolor sit amet, consectetur adipiscing elit";
    let free = label(long, vec![("bg_fill", ink(red()))]);
    let wrapped = label(long, vec![("bg_fill", ink(red())), ("width", number(100.0))]);
    let bb0 = fill_bbox(&paint(&free, 1000.0, 600.0)).expect("fill");
    let bb1 = fill_bbox(&paint(&wrapped, 1000.0, 600.0)).expect("fill");
    assert!(bb1.height() > bb0.height() + 5.0);
    assert!(bb1.width() < bb0.width());
}

#[test]
fn width_band_wraps_within_discrete_band() {
    let g = text(vec![
        ("x", words(&["B"])),
        ("y", numbers(&[0.5])),
        ("text", words(&["wrapped within category band"])),
        ("width_band", number(1.0)),
        ("fill", ink(red())),
        ("bg_fill", ink(red())),
    ]);
    let mut scales = ScaleOutputs::new();
    scales.bind_positions("x".to_string(), bands(&[(0.375, 0.25)]));
    let bb = fill_bbox(&paint_with(&g, 200.0, 100.0, &scales)).expect("fill");
    assert!(bb.width() > 0.0, "width = {}", bb.width());
    assert!(bb.width() < 150.0, "width = {}", bb.width());
    let page = Measures::panel(0.0, 0.0, 200.0, 100.0, 96.0);
    let plans = g.draw(&scales, &theme(), &Projection::cartesian());
    assert!(near(value(&plans[0].label.wrap, &page), 50.0));
}

#[test]
fn width_pt_and_band_sum_triggers_wrap() {
    let g = text(vec![
        ("x", words(&["A"])),
        ("y", numbers(&[0.5])),
        ("text", words(&["long-running label text"])),
        ("width", number(-9.0)),
        ("width_band", number(1.0)),
        ("fill", ink(red())),
        ("bg_fill", ink(red())),
    ]);
    let mut scales = ScaleOutputs::new();
    scales.bind_positions("x".to_string(), bands(&[(0.25, 0.5)]));
    let page = Measures::panel(0.0, 0.0, 100.0, 100.0, 96.0);
    let plans = g.draw(&scales, &theme(), &Projection::cartesian());
    assert!(near(value(&plans[0].label.wrap, &page), 38.0));
    assert!(holds(&plans[0].label.wraps, &page));
    let bb = fill_bbox(&paint_with(&g, 100.0, 100.0, &scales)).expect("fill");
    assert!(bb.width() > 0.0, "width = {}", bb.width());
    assert!(bb.width() < 80.0, "wrap should fire: width = {}", bb.width());
}

#[test]
fn bg_matches_content_width_not_wrap_constraint() {
    let g = label("short", vec![("width", number(500.0)), ("bg_fill", ink(red()))]);
    let bb = fill_bbox(&paint(&g, 1000.0, 200.0)).expect("fill");
    let wrap_px = 500.0 * 96.0 / 72.0;
    assert!(bb.width() < wrap_px * 0.5, "width = {}", bb.width());
}

#[test]
fn text_stroke_emits_outline_pass() {
    let outlined = |more: Vec<(&str, Channel)>| {
        let mut channels = vec![("text_linewidth", number(1.5))];
        channels.extend(more);
        paint(&label("hello", channels), 400.0, 200.0)
            .iter()
            .filter(|k| matches!(k, Mark::Glyphs { outlined: true, .. }))
            .count()
    };
    assert_eq!(outlined(vec![]), 0);
    assert!(outlined(vec![("text_stroke", ink(blue()))]) >= 1);
    assert_eq!(
        outlined(vec![("text_stroke", ink(blue())), ("text_linewidth", number(0.0))]),
        0
    );
}

#[test]
fn underline_channel_adds_fill_per_label() {
    let fills = |underline: bool| {
        let g = label("hello", vec![("underline", flag(underline))]);
        count_fills(&paint(&g, 400.0, 200.0))
    };
    assert_eq!(fills(true), fills(false) + 1);
}

#[test]
fn strikethrough_channel_adds_fill_per_label() {
    let fills = |strike: bool| {
        let g = label("hello", vec![("strikethrough", flag(strike))]);
        count_fills(&paint(&g, 400.0, 200.0))
    };
    assert_eq!(fills(true), fills(false) + 1);
}

#[test]
fn letter_spacing_channel_widens_emitted_glyphs() {
    let extent = |spacing: f64| {
        let g = label("MMMM", vec![("letter_spacing", number(spacing))]);
        match &paint(&g, 400.0, 200.0)[0] {
            Mark::Glyphs { xs, .. } => xs[xs.len() - 1] - xs[0],
            other => panic!("{:?}", other),
        }
    };
    let base = extent(0.0);
    let loose = extent(8.0);
    assert!(loose > base + 5.0, "base = {}, loose = {}", base, loose);
}

#[test]
fn x_band_shifts_anchor() {
    let at = |band: f64| {
        let g = text(vec![
            ("x", words(&["A"])),
            ("y", numbers(&[0.5])),
            ("text", words(&["L"])),
            ("x_band", numbers(&[band])),
            ("fill", ink(red())),
        ]);
        let mut scales = ScaleOutputs::new();
        scales.bind_positions("x".to_string(), bands(&[(0.25, 0.5)]));
        let marks = paint_with(&g, 200.0, 100.0, &scales);
        assert!(count_glyph_runs(&marks) >= 1);
        match &marks[0] {
            Mark::Glyphs { xs, .. } => xs[0],
            other => panic!("{:?}", other),
        }
    };
    // A tenth of a band of 100 pixels.
    assert!(near(at(0.1) - at(0.0), 10.0));
}

#[test]
fn offsets_move_right_and_up() {
    let at = |more: Vec<(&str, Channel)>| match &paint(&label("L", more), 200.0, 100.0)[0] {
        Mark::Glyphs { xs, top, .. } => (xs[0], *top),
        other => panic!("{:?}", other),
    };
    let a = at(vec![]);
    let b = at(vec![("x_offset", number(9.0)), ("y_offset", number(9.0))]);
    assert!(near(b.0 - a.0, 12.0));
    assert!(near(b.1 - a.1, -12.0));
}

#[test]
fn a_label_turns_about_its_anchor() {
    let g = label(
        "L",
        vec![
            ("angle", number(FRAC_PI_2)),
            ("anchor_x", number(0.0)),
            ("anchor_y", number(0.0)),
            ("x_offset", number(9.0)),
        ],
    );
    match &paint(&g, 200.0, 100.0)[0] {
        Mark::Glyphs { xs, top, .. } => {
            assert!(near(xs[0], 112.0) && near(*top, 50.0), "{} {}", xs[0], top);
        }
        other => panic!("{:?}", other),
    }
}

#[test]
fn markdown_channel_switches_to_rich_text_path() {
    let marks = |md: bool| {
        let g = text(vec![
            ("x", numbers(&[0.5])),
            ("y", numbers(&[0.5])),
            ("text", words(&["{.red hi}"])),
            ("fill", ink(rgba(0.0, 0.0, 0.0, 1.0))),
            ("markdown", flag(md)),
        ]);
        paint(&g, 400.0, 200.0)
    };
    let has_red = |marks: &[Mark]| marks.iter().any(|k| matches!(k, Mark::Glyphs { red: true, .. }));
    assert!(!has_red(&marks(false)), "plain path shouldn't produce red glyphs");
    assert!(has_red(&marks(true)), "markdown path should produce red glyphs");
}

#[test]
fn markdown_code_block_paints_inside_geom_bg() {
    let g = label(
        "```\nlet x = 1;\n```",
        vec![("markdown", flag(true)), ("bg_fill", ink(rgba(1.0, 1.0, 0.5, 1.0)))],
    );
    let marks = paint(&g, 400.0, 200.0);
    let fills: Vec<Bounds> = marks
        .iter()
        .filter_map(|k| match k {
            Mark::Fill { bounds, .. } => Some(*bounds),
            _ => None,
        })
        .collect();
    assert!(fills.len() >= 2, "got {}", fills.len());
    assert!(fills[0].x0 <= fills[1].x0 + 1e-6 && fills[0].x1 >= fills[1].x1 - 1e-6);
    assert!(fills[0].y0 <= fills[1].y0 + 1e-6 && fills[0].y1 >= fills[1].y1 - 1e-6);
}

#[test]
fn markdown_theme_default_toggles_rich_path() {
    let g = label("*hi*", vec![]);
    let plain = paint(&g, 400.0, 200.0);
    let mut themed = theme();
    themed.markdown = true;
    let md = paint_themed(&g, 400.0, 200.0, &ScaleOutputs::new(), &themed);
    assert!(count_letters(&md) < count_letters(&plain));
    assert_eq!((count_letters(&plain), count_letters(&md)), (4, 2));
}

#[test]
fn markdown_rows_shape_once_and_are_reused_next_frame() {
    let mut g = text(vec![
        ("x", numbers(&[0.5])),
        ("y", numbers(&[0.5])),
        ("text", words(&["**bold** and *italic*"])),
        ("markdown", flags(&[true])),
    ]);
    let first = draw_frame(&mut g);
    assert_eq!(g.rich_cache.len(), 1, "the row should be cached");
    let second = draw_frame(&mut g);
    assert_eq!(g.rich_cache.len(), 1, "the second frame must reuse the shaped run");
    assert_eq!(first.len(), second.len());
}

#[test]
fn invalidate_caches_drops_shaped_markdown() {
    let mut g = text(vec![
        ("x", numbers(&[0.5])),
        ("y", numbers(&[0.5])),
        ("text", words(&["**bold**"])),
        ("markdown", flags(&[true])),
    ]);
    draw_frame(&mut g);
    assert!(!g.rich_cache.is_empty());
    g.invalidate_caches();
    assert!(g.rich_cache.is_empty());
}

#[test]
fn an_outlined_sheet_is_made_once() {
    let g = label("*hi*", vec![("markdown", flag(true)), ("text_stroke", ink(blue()))]);
    let plans = g.draw(&ScaleOutputs::new(), &theme(), &Projection::cartesian());
    let mut g = g.with_rich_sheet(sheet(7));
    let shape = |g: &mut TextGeom, dpi: f64| {
        g.shape_row(
            &sheet(1),
            &plans[0].label,
            plans[0].label.style.size_pt,
            0,
            num(dpi),
            RichWidth::Natural,
        )
    };
    let (a, first, made) = shape(&mut g, 96.0);
    assert_eq!((first, made), (0, true));
    assert_eq!(a.id, 7);
    assert_eq!(a.get("base").and_then(|d| d.text_stroke), Some(blue()));
    let (b, again, made) = shape(&mut g, 96.0);
    assert_eq!((again, made), (0, false));
    assert!(Arc::ptr_eq(&a, &b));
    let (_, other, made) = shape(&mut g, 72.0);
    assert_eq!((other, made), (1, true));
    g.clear_rich_sheet();
    assert!(g.rich_sheet.is_none());
    g.set_rich_sheet(sheet(9));
    assert_eq!(g.sheet_or(&sheet(1)).id, 9);
}

#[test]
fn a_text_geom_can_be_changed_and_counted() {
    let mut g = label("hi", vec![]);
    assert_eq!(g.kind(), Some("text"));
    assert_eq!(g.len(), 1);
    assert!(!g.is_empty());
    assert!(!g.has_explicit_keys());
    built(g.set("size", number(24.0)));
    assert!(matches!(paint(&g, 200.0, 100.0)[0], Mark::Glyphs { size, .. } if near(size, 32.0)));
    let mut b = g.edit();
    b.set("size", number(6.0));
    built(g.update(b));
    assert!(matches!(paint(&g, 200.0, 100.0)[0], Mark::Glyphs { size, .. } if near(size, 8.0)));
    assert!(g.set("size", numbers(&[1.0, 2.0])).is_err());
}
