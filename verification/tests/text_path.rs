//! Labels along curves, set in a face of equally wide letters on a page of
//! 400 by 400 pixels at 96 dots per inch.

use std::sync::Arc;

use hephaestus::channel::{Channel, ChannelDecl};
use hephaestus::expr::{Cond, Expr, Quantity};
use hephaestus::geom::builder::GeomBuilder;
use hephaestus::geom::error::BuildError;
use hephaestus::geom::label::Label;
use hephaestus::geom::rich::StyleSheet;
use hephaestus::geom::text_path::{
    CurvePart, PathLabel, PathOp, TextPathGeom, curve_parts, is_curve, rule_stops,
};
use hephaestus::num::Num;
use hephaestus::pick::PickId;
use hephaestus::projection::Projection;
use hephaestus::resolve::ScaleOutputs;
use hephaestus::scene::Point;
use hephaestus::theme::TextPathTheme;
use hephaestus::value::{Color, DataColumn, Value};

/// The number `x`.
fn num(x: f64) -> Num {
    Num::from_bits(x.to_bits())
}

/// The number as the machine holds it.
fn float(x: Num) -> f64 {
    f64::from_bits(x.bits)
}

/// A column of numbers, mapped by the channel's scale.
fn numbers(xs: &[f64]) -> Channel {
    Channel::Data(DataColumn::F64(Arc::new(xs.iter().map(|x| num(*x)).collect())))
}

/// A column of numbers, taken as they are.
fn raw_numbers(xs: &[f64]) -> Channel {
    Channel::RawData(DataColumn::F64(Arc::new(xs.iter().map(|x| num(*x)).collect())))
}

/// One number for every row.
fn number(x: f64) -> Channel {
    Channel::Constant(Value::Number(num(x)))
}

/// A column of strings.
fn words(xs: &[&str]) -> Channel {
    Channel::Data(DataColumn::String(Arc::new(xs.iter().map(|x| x.to_string()).collect())))
}

/// One string for every row.
fn word(x: &str) -> Channel {
    Channel::Constant(Value::String(x.to_string()))
}

/// One truth value for every row.
fn flag(x: bool) -> Channel {
    Channel::Constant(Value::Bool(x))
}

/// A colour by its parts.
fn rgba(r: f32, g: f32, b: f32, a: f32) -> Color {
    Color { r: r.to_bits(), g: g.to_bits(), b: b.to_bits(), a: a.to_bits() }
}

fn red() -> Color {
    rgba(1.0, 0.0, 0.0, 1.0)
}

fn blue() -> Color {
    rgba(0.0, 0.0, 1.0, 1.0)
}

/// One colour for every row.
fn ink(c: Color) -> Channel {
    Channel::Constant(Value::Color(c))
}

/// A builder that holds these channels.
fn builder_of(channels: Vec<(&str, Channel)>) -> GeomBuilder {
    let mut b = GeomBuilder::new();
    for (name, channel) in channels {
        b.set(name, channel);
    }
    b
}

/// The geom, or a panic with the reason why there is none.
fn built<T>(r: Result<T, BuildError>) -> T {
    match r {
        Ok(g) => g,
        Err(e) => panic!("{}", e.message("?")),
    }
}

/// What has been measured on the page.
#[derive(Clone)]
struct Measures {
    values: Vec<(Quantity, f64)>,
}

impl Measures {
    /// A panel, at this many dots per inch.
    fn panel(x0: f64, y0: f64, x1: f64, y1: f64, dpi: f64) -> Measures {
        Measures {
            values: vec![
                (Quantity::PanelX0, x0),
                (Quantity::PanelY0, y0),
                (Quantity::PanelX1, x1),
                (Quantity::PanelY1, y1),
                (Quantity::Dpi, dpi),
            ],
        }
    }

    /// The same, with one quantity more.
    fn with(&self, q: Quantity, x: f64) -> Measures {
        let mut values: Vec<(Quantity, f64)> =
            self.values.iter().filter(|(p, _)| *p != q).cloned().collect();
        values.push((q, x));
        Measures { values }
    }

    fn get(&self, q: Quantity) -> f64 {
        match self.values.iter().find(|(p, _)| *p == q) {
            Some((_, x)) => *x,
            None => panic!("{:?} was not measured", q),
        }
    }
}

/// What the expression comes to.
fn value(e: &Expr, m: &Measures) -> f64 {
    match e {
        Expr::Lit(n) => float(*n),
        Expr::Ratio(p, q) => *p as f64 / *q as f64,
        Expr::Var(q) => m.get(*q),
        Expr::Neg(a) => -value(a, m),
        Expr::Add(a, b) => value(a, m) + value(b, m),
        Expr::Sub(a, b) => value(a, m) - value(b, m),
        Expr::Mul(a, b) => value(a, m) * value(b, m),
        Expr::Div(a, b) => value(a, m) / value(b, m),
        Expr::Min(a, b) => value(a, m).min(value(b, m)),
        Expr::Max(a, b) => value(a, m).max(value(b, m)),
        Expr::Clamp(a, lo, hi) => value(a, m).clamp(value(lo, m), value(hi, m)),
        Expr::Abs(a) => value(a, m).abs(),
        Expr::Sin(a) => value(a, m).sin(),
        Expr::Cos(a) => value(a, m).cos(),
        Expr::Sqrt(a) => value(a, m).sqrt(),
        Expr::Atan2(y, x) => value(y, m).atan2(value(x, m)),
        Expr::Select(c, a, b) => {
            if holds(c, m) {
                value(a, m)
            } else {
                value(b, m)
            }
        }
    }
}

/// Whether the condition holds.
fn holds(c: &Cond, m: &Measures) -> bool {
    match c {
        Cond::Always => true,
        Cond::Finite(a) => value(a, m).is_finite(),
        Cond::Gt(a, b) => value(a, m) > value(b, m),
        Cond::Ge(a, b) => value(a, m) >= value(b, m),
        Cond::Eq(a, b) => value(a, m) == value(b, m),
        Cond::Not(a) => !holds(a, m),
        Cond::And(a, b) => holds(a, m) && holds(b, m),
        Cond::Or(a, b) => holds(a, m) || holds(b, m),
    }
}

/// Where the point is.
fn place(p: &Point, m: &Measures) -> (f64, f64) {
    (value(&p.x, m), value(&p.y, m))
}

/// The names of the declared channels.
fn names_of(decls: &[ChannelDecl]) -> Vec<&str> {
    decls.iter().map(|d| d.name).collect()
}

/// Whether two numbers are the same but for rounding.
fn near(a: f64, b: f64) -> bool {
    (a - b).abs() < 1e-6
}

/// The smallest upright rectangle round some points.
#[derive(Clone, Copy, Debug)]
struct Bounds {
    x0: f64,
    y0: f64,
    x1: f64,
    y1: f64,
}

impl Bounds {
    fn of(points: &[(f64, f64)]) -> Bounds {
        Bounds {
            x0: points.iter().fold(f64::INFINITY, |a, p| a.min(p.0)),
            y0: points.iter().fold(f64::INFINITY, |a, p| a.min(p.1)),
            x1: points.iter().fold(f64::NEG_INFINITY, |a, p| a.max(p.0)),
            y1: points.iter().fold(f64::NEG_INFINITY, |a, p| a.max(p.1)),
        }
    }

    fn width(&self) -> f64 {
        self.x1 - self.x0
    }

    fn height(&self) -> f64 {
        self.y1 - self.y0
    }

    fn cx(&self) -> f64 {
        (self.x0 + self.x1) * 0.5
    }

    fn cy(&self) -> f64 {
        (self.y0 + self.y1) * 0.5
    }
}

/// One letter on the page.
#[derive(Clone, Copy, Debug)]
struct Glyph {
    letter: char,
    red: bool,
}

/// A style sheet without rules.
fn sheet(id: u64) -> Arc<StyleSheet> {
    Arc::new(StyleSheet::new(id))
}

/// One letter of a label: where it starts, how far below the baseline it
/// sits, and its colour.
#[derive(Clone, Debug)]
struct Letter {
    x: f64,
    dy: f64,
    color: Color,
}

/// A rule under or through a part of a label.
#[derive(Clone, Debug)]
struct Rule {
    x0: f64,
    x1: f64,
    dy: f64,
}

/// A label on one line. A letter takes four tenths of the font size.
#[derive(Clone, Debug)]
struct Line {
    letters: Vec<Letter>,
    rules: Vec<Rule>,
    size: f64,
    width: f64,
}

/// Sets a label. Of markdown it knows stars, superscripts between carets,
/// underlines between low lines, spans in red, and paragraphs, which are joined
/// by the room of a letter.
fn set_line(label: &Label) -> Line {
    let size = float(label.style.size_pt) * 96.0 / 72.0;
    let advance = 0.4 * size;
    let mut line = Line { letters: vec![], rules: vec![], size, width: 0.0 };
    let mut text = label.text.clone();
    let mut color = label.fill.color;
    if label.markdown && text.starts_with("{#ff0000 ") {
        text = text.replace("{#ff0000 ", "").replace('}', "");
        color = red();
    }
    let (mut raised, mut under) = (false, None);
    let mut breaks = 0;
    for c in text.chars() {
        if label.markdown {
            match c {
                '*' => continue,
                '^' => {
                    raised = !raised;
                    continue;
                }
                '_' => {
                    match under {
                        None => under = Some(line.width),
                        Some(x0) => {
                            line.rules.push(Rule { x0, x1: line.width, dy: 0.1 * size });
                            under = None;
                        }
                    }
                    continue;
                }
                '\n' => {
                    breaks += 1;
                    if breaks == 2 {
                        line.width += advance;
                        breaks = 0;
                    }
                    continue;
                }
                _ => {}
            }
        }
        let dy = if raised { -0.3 * size } else { 0.0 };
        line.letters.push(Letter { x: line.width, dy, color });
        line.width += advance;
    }
    if label.style.underline {
        line.rules.push(Rule { x0: 0.0, x1: line.width, dy: 0.1 * size });
    }
    if label.style.strikethrough {
        line.rules.push(Rule { x0: 0.0, x1: line.width, dy: -0.3 * size });
    }
    line
}

/// A polyline that can be walked.
struct Walk {
    points: Vec<(f64, f64)>,
}

impl Walk {
    fn steps(&self) -> Vec<f64> {
        self.points
            .windows(2)
            .map(|w| ((w[1].0 - w[0].0).powi(2) + (w[1].1 - w[0].1).powi(2)).sqrt())
            .collect()
    }

    fn length(&self) -> f64 {
        self.steps().iter().sum()
    }

    /// How far along each vertex lies.
    fn corners(&self) -> Vec<Num> {
        let mut reached = 0.0;
        let mut out = vec![num(reached)];
        for step in self.steps() {
            reached += step;
            out.push(num(reached));
        }
        out
    }

    /// The point and the direction after some distance.
    fn at(&self, d: f64) -> ((f64, f64), (f64, f64)) {
        let steps = self.steps();
        let mut before = 0.0;
        for (k, step) in steps.iter().enumerate() {
            if d <= before + step || k + 1 == steps.len() {
                let (a, b) = (self.points[k], self.points[k + 1]);
                let t = (d - before) / step;
                let point = (a.0 + t * (b.0 - a.0), a.1 + t * (b.1 - a.1));
                return (point, ((b.0 - a.0) / step, (b.1 - a.1) / step));
            }
            before += step;
        }
        panic!("nowhere to go");
    }

    /// The page, with a point of the polyline sampled.
    fn sampled(&self, d: f64, m: &Measures) -> Measures {
        let (point, tangent) = self.at(d);
        m.with(Quantity::SampleX, point.0)
            .with(Quantity::SampleY, point.1)
            .with(Quantity::TangentX, tangent.0)
            .with(Quantity::TangentY, tangent.1)
    }
}

/// What is left on the page.
#[derive(Clone, Debug)]
enum Drawn {
    Rule { width: f64, points: Vec<(f64, f64)> },
    Outline { width: f64 },
    Glyph { angle: f64, at: (f64, f64), color: Color, alpha: f64, pick: PickId },
}

fn theme() -> TextPathTheme {
    TextPathTheme {
        size_pt: num(12.0),
        weight: 400,
        tracking: num(0.0),
        underline: false,
        strikethrough: false,
        markdown: false,
        fill: None,
        text_stroke: None,
        text_linewidth_pt: num(1.0),
    }
}

fn page() -> Measures {
    Measures::panel(0.0, 0.0, 400.0, 400.0, 96.0)
}

fn paint_label(label: &PathLabel) -> Vec<Drawn> {
    let placed: Vec<bool> = label.vertices.iter().map(|v| holds(&v.placed, &page())).collect();
    let points: Vec<(f64, f64)> = curve_parts(true, &placed)
        .iter()
        .map(|part| match part {
            CurvePart::Vertex(k) => place(&label.vertices[*k].at, &page()),
            CurvePart::Between(..) => panic!("nothing bends here"),
        })
        .collect();
    if !is_curve(points.len()) {
        return vec![];
    }
    let walk = Walk { points };
    let m = page().with(Quantity::PathLength, walk.length());
    if !holds(&label.when, &m) {
        return vec![];
    }
    let line = set_line(&label.label);
    let m = m
        .with(Quantity::TextWidth, line.width)
        .with(Quantity::TextAscent, line.size)
        .with(Quantity::TextDescent, 0.2 * line.size);
    let lettered = |k: usize| {
        m.with(Quantity::GlyphX, line.letters[k].x)
            .with(Quantity::GlyphAdvance, 0.4 * line.size)
            .with(Quantity::GlyphDy, line.letters[k].dy)
    };
    let leftward: Vec<Option<bool>> = (0..line.letters.len())
        .map(|k| {
            let (d, known) = label.probe();
            if holds(&known, &lettered(k)) {
                Some(walk.at(value(&d, &lettered(k))).1 .0 < 0.0)
            } else {
                None
            }
        })
        .collect();
    let flipped = label.is_flipped(&leftward);
    let mut out = vec![];
    for op in label.ops(line.rules.len(), line.letters.len()) {
        match op {
            PathOp::Rule(k) => {
                let rule = label.rule(flipped);
                let m = m
                    .with(Quantity::RuleX0, line.rules[k].x0)
                    .with(Quantity::RuleX1, line.rules[k].x1)
                    .with(Quantity::RuleDy, line.rules[k].dy)
                    .with(Quantity::RuleThickness, 0.05 * line.size);
                if holds(&rule.when, &m) {
                    let (from, to) = (num(value(&rule.from, &m)), num(value(&rule.to, &m)));
                    let points = rule_stops(from, to, &walk.corners())
                        .iter()
                        .map(|d| place(&rule.at, &walk.sampled(float(*d), &m)))
                        .collect();
                    out.push(Drawn::Rule { width: value(&rule.thickness, &m), points });
                }
            }
            PathOp::Outline(_) => {
                if let Some(o) = &label.outline {
                    if holds(&o.when, &m) {
                        out.push(Drawn::Outline { width: value(&o.width, &m) });
                    }
                }
            }
            PathOp::Glyph(k) => {
                let stamp = label.stamp(flipped);
                let m = lettered(k);
                if holds(&stamp.when, &m) {
                    let m = walk.sampled(value(&stamp.along, &m), &m);
                    let angle = value(&stamp.angle, &m);
                    let (sx, sy) = place(&stamp.shift, &m);
                    let (x, y) = place(&stamp.at, &m);
                    let (s, c) = angle.sin_cos();
                    out.push(Drawn::Glyph {
                        angle,
                        at: (x + c * sx - s * sy, y + s * sx + c * sy),
                        color: line.letters[k].color,
                        alpha: label.label.fill.opacity.map_or(1.0, float),
                        pick: label.pick,
                    });
                }
            }
        }
    }
    out
}

fn paint(g: &TextPathGeom) -> Vec<Drawn> {
    g.draw(&ScaleOutputs::new(), &theme(), &Projection::cartesian())
        .iter()
        .flat_map(paint_label)
        .collect()
}

/// Where each glyph's origin is, and how it is turned.
fn glyphs(drawn: &[Drawn]) -> Vec<((f64, f64), f64)> {
    drawn
        .iter()
        .filter_map(|d| match d {
            Drawn::Glyph { at, angle, .. } => Some((*at, *angle)),
            _ => None,
        })
        .collect()
}

fn rules(drawn: &[Drawn]) -> Vec<(f64, Vec<(f64, f64)>)> {
    drawn
        .iter()
        .filter_map(|d| match d {
            Drawn::Rule { width, points } => Some((*width, points.clone())),
            _ => None,
        })
        .collect()
}

fn baselines(drawn: &[Drawn]) -> Vec<f64> {
    glyphs(drawn).iter().map(|g| g.0 .1).collect()
}

fn path(channels: Vec<(&str, Channel)>) -> TextPathGeom {
    let mut g = built(TextPathGeom::build_from(builder_of(channels)));
    g.rebuild_diff_against_previous();
    g
}

/// A label of 20 points on a line through the panel.
fn along(xs: [f64; 2], ys: [f64; 2], content: &str, more: Vec<(&str, Channel)>) -> TextPathGeom {
    let mut channels = vec![
        ("x", raw_numbers(&xs)),
        ("y", raw_numbers(&ys)),
        ("text", word(content)),
        ("size", number(20.0)),
    ];
    channels.extend(more);
    path(channels)
}

/// A label on the line from (100, 200) to (300, 200).
fn level(content: &str, more: Vec<(&str, Channel)>) -> TextPathGeom {
    along([0.25, 0.75], [0.5, 0.5], content, more)
}

/// The same, read as markdown.
fn markdown(content: &str) -> TextPathGeom {
    level(content, vec![("markdown", flag(true))])
}

#[test]
#[should_panic(expected = "missing required channel \"x\"")]
fn builder_missing_x_panics() {
    path(vec![("y", numbers(&[0.0, 1.0])), ("text", word("hi"))]);
}

#[test]
#[should_panic(expected = "missing required channel \"text\"")]
fn builder_missing_text_panics() {
    path(vec![("x", numbers(&[0.0, 1.0])), ("y", numbers(&[0.0, 1.0]))]);
}

#[test]
#[should_panic(expected = "does not match")]
fn builder_mismatched_xy_panics() {
    path(vec![
        ("x", numbers(&[0.0, 1.0])),
        ("y", numbers(&[0.0])),
        ("text", word("hi")),
    ]);
}

#[test]
fn fill_opacity_overrides_the_glyph_fill_alpha() {
    let g = level("AB", vec![("fill", ink(red())), ("fill_opacity", number(0.35))]);
    let drawn = paint(&g);
    assert!(!glyphs(&drawn).is_empty(), "expected glyphs");
    for d in drawn {
        if let Drawn::Glyph { alpha, color, .. } = d {
            assert!((alpha - 0.35).abs() < 1e-6);
            assert_eq!(color, red());
        }
    }
}

#[test]
fn single_glyph_anchor_on_horizontal_path() {
    let drawn = glyphs(&paint(&level("A", vec![])));
    assert_eq!(drawn.len(), 1);
    let ((tx, ty), angle) = drawn[0];
    assert!(angle.cos() > 0.99, "cos = {}", angle.cos());
    assert!(angle.sin().abs() < 0.01, "sin = {}", angle.sin());
    assert!(ty > 200.0 && ty < 200.0 + 20.0 * 96.0 / 72.0, "ty = {}", ty);
    assert!((tx - 100.0).abs() < 1.0, "tx = {}", tx);
}

#[test]
fn vertical_path_rotates_glyphs_by_quarter_turn() {
    let drawn = glyphs(&paint(&along([0.5, 0.5], [0.75, 0.25], "X", vec![])));
    assert_eq!(drawn.len(), 1);
    let angle = drawn[0].1;
    assert!(angle.cos().abs() < 0.01, "cos = {}", angle.cos());
    assert!((angle.sin() - 1.0).abs() < 0.01, "sin = {}", angle.sin());
}

#[test]
fn hjust_zero_packs_text_to_start() {
    let drawn = glyphs(&paint(&level("hello", vec![])));
    assert!(drawn.len() >= 5);
    let first = drawn[0].0 .0;
    assert!((100.0..130.0).contains(&first), "first = {}", first);
}

#[test]
fn hjust_half_centers_text() {
    let drawn = glyphs(&paint(&level("centerme", vec![("justify_x", number(0.5))])));
    assert!(!drawn.is_empty());
    let mid = drawn[drawn.len() / 2].0 .0;
    assert!((mid - 200.0).abs() < 25.0, "mid = {}", mid);
}

#[test]
fn hjust_one_packs_text_to_end() {
    let drawn = glyphs(&paint(&level("abc", vec![("justify_x", number(1.0))])));
    assert!(drawn.len() >= 3);
    let last = drawn[drawn.len() - 1].0 .0;
    assert!(last > 270.0 && last <= 300.0, "last = {}", last);
}

#[test]
fn offset_shifts_layout_along_path() {
    let a = glyphs(&paint(&level("ab", vec![])))[0].0 .0;
    let b = glyphs(&paint(&level("ab", vec![("offset", number(50.0))])))[0].0 .0;
    let expected = 50.0 * 96.0 / 72.0;
    assert!((b - a - expected).abs() < 1.0, "shift = {}", b - a);
}

#[test]
fn anchor_y_moves_the_text_across_the_path_by_its_own_height() {
    let baseline_at = |anchor: f64| {
        baselines(&paint(&level("X", vec![("anchor_y", number(anchor))])))[0]
    };
    let top = baseline_at(0.0);
    let mid = baseline_at(0.5);
    let bottom = baseline_at(1.0);
    assert!(top > 200.0, "top = {}", top);
    assert!(bottom < 200.0, "bottom = {}", bottom);
    assert!((mid - 0.5 * (top + bottom)).abs() < 0.5, "mid = {}", mid);
    let height = 1.2 * 20.0 * 96.0 / 72.0;
    assert!(near(top - bottom, height), "height = {}", top - bottom);
}

#[test]
fn upright_reverses_reading_along_path() {
    let drawn = |upright: bool| {
        glyphs(&paint(&along(
            [0.75, 0.25],
            [0.5, 0.5],
            "abcde",
            vec![("upright", flag(upright))],
        )))
    };
    let off = drawn(false);
    let on = drawn(true);
    assert!(off.len() >= 5 && on.len() >= 5);
    assert!(off[0].1.cos() < -0.95, "cos = {}", off[0].1.cos());
    for g in &on {
        assert!(g.1.cos() > 0.95, "cos = {}", g.1.cos());
    }
    let off_x = off[0].0 .0;
    let on_x = on[0].0 .0;
    let on_last_x = on[on.len() - 1].0 .0;
    assert!(off_x > 280.0, "off_x = {}", off_x);
    assert!(on_x < off_x - 30.0, "on_x = {}, off_x = {}", on_x, off_x);
    assert!(on_last_x > on_x + 30.0, "on_last_x = {}, on_x = {}", on_last_x, on_x);
}

#[test]
fn upright_flips_glyphs_on_backwards_tangent() {
    let cos = |upright: bool| {
        let g = along([0.75, 0.25], [0.5, 0.5], "X", vec![("upright", flag(upright))]);
        glyphs(&paint(&g))[0].1.cos()
    };
    assert!(cos(false) < -0.99, "cos = {}", cos(false));
    assert!(cos(true) > 0.99, "cos = {}", cos(true));
}

#[test]
fn turning_a_label_round_keeps_its_body_in_place() {
    // The label's top and bottom change places, and so do its ends.
    for anchor in [0.0, 0.25, 0.5, 1.0] {
        let body = |upright: bool| {
            let g = along(
                [0.75, 0.25],
                [0.5, 0.5],
                "abc",
                vec![
                    ("upright", flag(upright)),
                    ("anchor_y", number(anchor)),
                    ("justify_x", number(0.3)),
                ],
            );
            let (size, advance) = (20.0 * 96.0 / 72.0, 8.0 * 96.0 / 72.0);
            let mut corners = vec![];
            for ((x, y), angle) in glyphs(&paint(&g)) {
                let (s, c) = angle.sin_cos();
                for (dx, dy) in [(0.0, -size), (advance, 0.2 * size)] {
                    corners.push((x + c * dx - s * dy, y + s * dx + c * dy));
                }
            }
            Bounds::of(&corners)
        };
        let (a, b) = (body(false), body(true));
        assert!(near(a.x0, b.x0) && near(a.x1, b.x1), "{:?} {:?}", a, b);
        assert!(near(a.y0, b.y0) && near(a.y1, b.y1), "{:?} {:?}", a, b);
    }
}

#[test]
fn glyphs_outside_path_range_are_dropped() {
    let g = along([0.25, 0.275], [0.5, 0.5], "this is way too long for that path", vec![]);
    let n = glyphs(&paint(&g)).len();
    assert!(n < 5, "got {}", n);
}

#[test]
fn empty_text_skips_mark() {
    let g = path(vec![
        ("x", raw_numbers(&[0.25, 0.75])),
        ("y", raw_numbers(&[0.5, 0.5])),
        ("text", word("")),
    ]);
    assert_eq!(glyphs(&paint(&g)).len(), 0);
}

#[test]
fn single_vertex_mark_skipped() {
    let mut b = builder_of(vec![
        ("x", raw_numbers(&[0.25, 0.25])),
        ("y", raw_numbers(&[0.5, 0.5])),
        ("text", word("label")),
    ]);
    b.keys(DataColumn::String(Arc::new(vec!["A".to_string(), "A".to_string()])));
    let mut g = built(TextPathGeom::build_from(b));
    g.rebuild_diff_against_previous();
    assert_eq!(glyphs(&paint(&g)).len(), 0);
}

#[test]
fn per_mark_grouping_emits_one_label_per_key() {
    let mut b = builder_of(vec![
        ("x", raw_numbers(&[0.25, 0.5, 0.25, 0.5])),
        ("y", raw_numbers(&[0.75, 0.75, 0.25, 0.25])),
        ("text", words(&["one", "one", "two", "two"])),
        ("size", number(16.0)),
    ]);
    let keys = ["A", "A", "B", "B"].iter().map(|k| k.to_string()).collect();
    b.keys(DataColumn::String(Arc::new(keys)));
    let mut g = built(TextPathGeom::build_from(b));
    g.rebuild_diff_against_previous();
    assert_eq!(g.mark_count(), 2);
    let drawn = paint(&g);
    assert!(glyphs(&drawn).len() >= 6);
    let ys = baselines(&drawn);
    let min_y = ys.iter().cloned().fold(f64::INFINITY, f64::min);
    let max_y = ys.iter().cloned().fold(f64::NEG_INFINITY, f64::max);
    assert!((max_y - min_y - 200.0).abs() < 5.0, "separation = {}", max_y - min_y);
}

#[test]
fn pick_id_propagates_to_all_glyphs() {
    let g = path(vec![
        ("x", raw_numbers(&[0.25, 0.75])),
        ("y", raw_numbers(&[0.5, 0.5])),
        ("text", word("abc")),
        ("pick_id", number(42.0)),
    ]);
    let drawn = paint(&g);
    assert!(!glyphs(&drawn).is_empty());
    for d in drawn {
        if let Drawn::Glyph { pick, .. } = d {
            assert_eq!(pick, PickId::Id(42));
        }
    }
}

#[test]
fn text_path_markdown_consumes_the_inline_markup() {
    assert_eq!(glyphs(&paint(&level("**AB**", vec![]))).len(), 6);
    assert_eq!(glyphs(&paint(&markdown("**AB**"))).len(), 2);
}

#[test]
fn markdown_span_colour_reaches_the_glyph_brush() {
    let drawn = paint(&markdown("{#ff0000 A}"));
    assert_eq!(glyphs(&drawn).len(), 1);
    assert!(matches!(drawn[0], Drawn::Glyph { color, .. } if color == red()));
}

#[test]
fn markdown_blocks_join_with_a_space() {
    let gap = |content: &str| {
        let drawn = glyphs(&paint(&markdown(content)));
        assert_eq!(drawn.len(), 2);
        drawn[1].0 .0 - drawn[0].0 .0
    };
    let joined = gap("a\n\nb");
    let contiguous = gap("ab");
    assert!(joined > contiguous + 3.0, "{} vs {}", joined, contiguous);
}

#[test]
fn superscript_lifts_its_glyph_off_the_baseline() {
    let ys = baselines(&paint(&markdown("a ^2^ b")));
    assert!(ys.len() >= 3, "{:?}", ys);
    let body = ys.iter().cloned().fold(f64::MIN, f64::max);
    let lifted = ys.iter().cloned().fold(f64::MAX, f64::min);
    assert!(lifted < body - 3.0, "{:?}", ys);
}

#[test]
fn underline_strokes_one_rule_along_the_path() {
    let drawn = paint(&level("AB", vec![("underline", flag(true))]));
    let found = rules(&drawn);
    assert_eq!(found.len(), 1, "expected exactly one underline");
    let (width, points) = &found[0];
    assert!(*width > 0.0 && *width < 20.0 * 96.0 / 72.0, "width = {}", width);
    assert!(points.len() >= 2, "{:?}", points);
    assert!((points[0].0 - 100.0).abs() < 1.0, "{:?}", points[0]);
    let baseline = baselines(&drawn)[0];
    assert!(points[0].1 > baseline, "{:?} above {}", points[0], baseline);
}

#[test]
fn underline_and_strikethrough_emit_a_rule_each() {
    let drawn = paint(&level(
        "AB",
        vec![("underline", flag(true)), ("strikethrough", flag(true))],
    ));
    let found = rules(&drawn);
    assert_eq!(found.len(), 2);
    let baseline = baselines(&drawn)[0];
    let above = found.iter().filter(|(_, p)| p[0].1 < baseline).count();
    let below = found.iter().filter(|(_, p)| p[0].1 > baseline).count();
    assert_eq!((above, below), (1, 1), "{:?}", found);
}

#[test]
fn a_markdown_rule_covers_only_its_own_span() {
    let drawn = paint(&markdown("AA _BB_"));
    let found = rules(&drawn);
    assert_eq!(found.len(), 1);
    let letters = glyphs(&drawn);
    assert_eq!(letters.len(), 5);
    let span_start = letters[3].0 .0;
    assert!((found[0].1[0].0 - span_start).abs() < 2.0, "{:?}", found[0].1[0]);
    let last = found[0].1[found[0].1.len() - 1];
    assert!(last.0 > span_start, "{:?}", last);
}

#[test]
fn an_upright_flip_keeps_the_rule_on_the_same_side() {
    let rule_offset = |xs: [f64; 2], upright: bool| {
        let drawn = paint(&along(
            xs,
            [0.5, 0.5],
            "AB",
            vec![("underline", flag(true)), ("upright", flag(upright))],
        ));
        let found = rules(&drawn);
        assert_eq!(found.len(), 1);
        found[0].1[0].1 - baselines(&drawn)[0]
    };
    let forward = rule_offset([0.25, 0.75], false);
    let flipped = rule_offset([0.75, 0.25], true);
    assert!((forward - flipped).abs() < 0.5, "{} vs {}", forward, flipped);
}

#[test]
fn rules_come_before_glyphs_and_outlines_before_theirs() {
    let g = level(
        "AB",
        vec![
            ("underline", flag(true)),
            ("text_stroke", ink(blue())),
            ("text_linewidth", number(3.0)),
        ],
    );
    let drawn = paint(&g);
    assert_eq!(drawn.len(), 5);
    assert!(matches!(drawn[0], Drawn::Rule { .. }));
    assert!(matches!(drawn[1], Drawn::Outline { width } if near(width, 4.0)));
    assert!(matches!(drawn[2], Drawn::Glyph { .. }));
    assert!(matches!(drawn[3], Drawn::Outline { .. }));
    assert!(matches!(drawn[4], Drawn::Glyph { .. }));
    let g = level("AB", vec![("text_stroke", ink(blue())), ("text_linewidth", number(0.0))]);
    assert_eq!(paint(&g).len(), 2);
}

#[test]
fn a_rule_ends_where_the_curve_ends() {
    let g = along(
        [0.25, 0.3],
        [0.5, 0.5],
        "ABCDEFGH",
        vec![("underline", flag(true))],
    );
    let found = rules(&paint(&g));
    let points = &found[0].1;
    assert!(near(points[0].0, 100.0) && near(points[1].0, 120.0), "{:?}", points);
}

/// Numbers, given by the numbers of the machine.
fn nums(xs: &[f64]) -> Vec<Num> {
    xs.iter().map(|x| num(*x)).collect()
}

#[test]
fn a_rule_runs_through_the_corners_between_its_ends() {
    let corners = nums(&[0.0, 10.0, 25.0, 40.0, 60.0]);
    let stops = |from: f64, to: f64| rule_stops(num(from), num(to), &corners);
    assert_eq!(stops(5.0, 50.0), nums(&[5.0, 10.0, 25.0, 40.0, 50.0]));
    // A corner at an end of the rule is that end.
    assert_eq!(stops(10.0, 40.0), nums(&[10.0, 25.0, 40.0]));
    assert_eq!(stops(11.0, 12.0), nums(&[11.0, 12.0]));

    // Eight letters over a corner: the rule bends there.
    let g = path(vec![
        ("x", raw_numbers(&[0.25, 0.375, 0.375])),
        ("y", raw_numbers(&[0.5, 0.5, 0.75])),
        ("text", word("ABCDEFGH")),
        ("size", number(20.0)),
        ("underline", flag(true)),
    ]);
    let found = rules(&paint(&g));
    assert_eq!(found.len(), 1);
    assert_eq!(found[0].1.len(), 3, "{:?}", found);
}

#[test]
fn a_turned_label_is_that_of_the_curve_walked_back() {
    // Leftward, with a bend away from every glyph's middle.
    let (xs, ys) = ([0.9, 0.47, 0.1], [0.5, 0.6, 0.45]);
    let label = |back: bool, upright: bool, justify: f64, anchor: f64| {
        let (mut xs, mut ys) = (xs, ys);
        if back {
            xs.reverse();
            ys.reverse();
        }
        paint(&path(vec![
            ("x", raw_numbers(&xs)),
            ("y", raw_numbers(&ys)),
            ("text", word("ABCDEFGH")),
            ("size", number(20.0)),
            ("underline", flag(true)),
            ("offset", number(3.0)),
            ("angle", number(0.2)),
            ("upright", flag(upright)),
            ("justify_x", number(justify)),
            ("anchor_y", number(anchor)),
        ]))
    };
    let turned = label(false, true, 0.5625, 0.125);
    let straight = label(true, false, 0.4375, 0.875);
    let (a, b) = (glyphs(&turned), glyphs(&straight));
    assert_eq!(a.len(), 8);
    assert_eq!(b.len(), 8);
    for (a, b) in a.iter().zip(&b) {
        assert!(near(a.0 .0, b.0 .0) && near(a.0 .1, b.0 .1), "{:?} {:?}", a, b);
        assert!(near(a.1.sin(), b.1.sin()) && near(a.1.cos(), b.1.cos()), "{:?} {:?}", a, b);
    }
    let (a, b) = (&rules(&turned)[0], &rules(&straight)[0]);
    assert!(near(a.0, b.0));
    assert_eq!(a.1.len(), 3);
    // The rule runs along the curve, and so the other way.
    for end in [0, 2] {
        let (p, q) = (a.1[end], b.1[2 - end]);
        assert!(near(p.0, q.0) && near(p.1, q.1), "{:?} {:?}", p, q);
    }
}

#[test]
fn an_angle_turns_each_glyph_on_its_spot() {
    let plain = glyphs(&paint(&level("AB", vec![])));
    let bent = glyphs(&paint(&level("AB", vec![("angle", number(0.5))])));
    for (a, b) in plain.iter().zip(&bent) {
        assert!(near(b.1 - a.1, -0.5));
    }
}

#[test]
fn curves_leave_out_what_lies_nowhere() {
    assert_eq!(
        curve_parts(true, &[true, false, true]),
        vec![CurvePart::Vertex(0), CurvePart::Vertex(2)]
    );
    assert_eq!(
        curve_parts(false, &[false, true, false, true, true]),
        vec![
            CurvePart::Vertex(1),
            CurvePart::Between(1, 3),
            CurvePart::Vertex(3),
            CurvePart::Between(3, 4),
            CurvePart::Vertex(4),
        ]
    );
    assert!(curve_parts(false, &[false]).is_empty());
    assert!(!is_curve(1));
    assert!(is_curve(2));
}

#[test]
fn a_label_turns_when_most_of_it_stands_on_its_head() {
    let g = level("AB", vec![("upright", flag(true))]);
    let labels = g.draw(&ScaleOutputs::new(), &theme(), &Projection::cartesian());
    let label = &labels[0];
    assert!(!label.is_flipped(&[]));
    assert!(!label.is_flipped(&[Some(true), Some(false)]));
    assert!(label.is_flipped(&[Some(true), None]));
    assert!(!label.is_flipped(&[None, None]));
    let g = level("AB", vec![]);
    let labels = g.draw(&ScaleOutputs::new(), &theme(), &Projection::cartesian());
    assert!(!labels[0].is_flipped(&[Some(true)]));
}

#[test]
fn text_path_declared_channels_alphabetical() {
    let g = built(TextPathGeom::build_from(builder_of(vec![
        ("x", raw_numbers(&[0.0, 1.0])),
        ("y", raw_numbers(&[0.0, 1.0])),
        ("text", word("x")),
        ("justify_x", number(0.0)),
        ("upright", flag(false)),
    ])));
    let names = names_of(g.declared_channels());
    let mut sorted = names.clone();
    sorted.sort();
    assert_eq!(names, sorted);
    assert!(names.contains(&"text"));
    assert!(names.contains(&"justify_x"));
    assert!(names.contains(&"upright"));
}

#[test]
fn markdown_along_a_path_shapes_once() {
    let mut g = markdown("**AB**");
    let labels = g.draw(&ScaleOutputs::new(), &theme(), &Projection::cartesian());
    assert_eq!(g.shape_mark(&sheet(1), &labels[0].label, 0, num(96.0)), (0, true));
    assert_eq!(g.shape_mark(&sheet(1), &labels[0].label, 0, num(96.0)), (0, false));
    assert_eq!(g.shape_mark(&sheet(2), &labels[0].label, 0, num(96.0)), (1, true));
    g.set_rich_sheet(sheet(1));
    assert_eq!(g.shape_mark(&sheet(2), &labels[0].label, 0, num(96.0)), (0, false));
    g.invalidate_caches();
    assert!(g.rich_cache.is_empty());
}

#[test]
fn a_path_geom_can_be_changed_and_counted() {
    let mut g = level("AB", vec![]);
    assert_eq!(g.kind(), Some("text-path"));
    assert_eq!(g.len(), 2);
    assert!(!g.is_empty());
    assert_eq!(g.build_marks().len(), 1);
    built(g.set("text", word("ABC")));
    assert_eq!(glyphs(&paint(&g)).len(), 3);
    let mut b = g.edit();
    b.set("text", word("A"));
    built(g.update(b));
    g.rebuild_diff_against_previous();
    assert_eq!(glyphs(&paint(&g)).len(), 1);
    assert_eq!(g.state.update, vec![(0, 0)]);
}
