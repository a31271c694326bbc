//! Wedges, drawn on a page of 100 by 100 pixels at 96 dots per inch.

use std::f64::consts::{PI, TAU};
use std::sync::Arc;

use hephaestus::channel::{Channel, ChannelDecl};
use hephaestus::expr::{Cond, Expr, Quantity};
use hephaestus::geom::builder::GeomBuilder;
use hephaestus::geom::error::BuildError;
use hephaestus::geom::wedge::WedgeGeom;
use hephaestus::num::Num;
use hephaestus::pick::PickId;
use hephaestus::resolve::{BandPosition, ScaleOutputs};
use hephaestus::scene::{Op, Path, Point, Rect};
use hephaestus::value::{Color, DataColumn, LinetypeStep, Value};

/// The number `x`.
fn num(x: f64) -> Num {
    Num::from_bits(x.to_bits())
}

/// The number as the machine holds it.
fn float(x: Num) -> f64 {
    f64::from_bits(x.bits)
}

/// A column of numbers, mapped by the channel's scale.
fn numbers(xs: &[f64]) -> Channel {
    Channel::Data(DataColumn::F64(Arc::new(xs.iter().map(|x| num(*x)).collect())))
}

/// One number for every row.
fn number(x: f64) -> Channel {
    Channel::Constant(Value::Number(num(x)))
}

/// A column of strings.
fn words(xs: &[&str]) -> Channel {
    Channel::Data(DataColumn::String(Arc::new(xs.iter().map(|x| x.to_string()).collect())))
}

/// A colour by its parts.
fn rgba(r: f32, g: f32, b: f32, a: f32) -> Color {
    Color { r: r.to_bits(), g: g.to_bits(), b: b.to_bits(), a: a.to_bits() }
}

fn red() -> Color {
    rgba(1.0, 0.0, 0.0, 1.0)
}

fn blue() -> Color {
    rgba(0.0, 0.0, 1.0, 1.0)
}

/// One colour for every row.
fn ink(c: Color) -> Channel {
    Channel::Constant(Value::Color(c))
}

/// Ink over four points, none over four.
fn dashed() -> Channel {
    Channel::Constant(Value::Linetype(Arc::new(vec![
        LinetypeStep::Dash(num(4.0)),
        LinetypeStep::Gap(num(4.0)),
    ])))
}

/// A builder that holds these channels.
fn builder_of(channels: Vec<(&str, Channel)>) -> GeomBuilder {
    let mut b = GeomBuilder::new();
    for (name, channel) in channels {
        b.set(name, channel);
    }
    b
}

/// The geom, or a panic with the reason why there is none.
fn built<T>(r: Result<T, BuildError>) -> T {
    match r {
        Ok(g) => g,
        Err(e) => panic!("{}", e.message("?")),
    }
}

/// Places that a scale with bands gives, for each row: centre and room.
fn bands(xs: &[(f64, f64)]) -> Arc<Vec<BandPosition>> {
    Arc::new(
        xs.iter()
            .map(|(center, band)| BandPosition { center: num(*center), band: num(*band) })
            .collect(),
    )
}

/// What has been measured on the page.
#[derive(Clone)]
struct Measures {
    values: Vec<(Quantity, f64)>,
}

impl Measures {
    /// A panel, at this many dots per inch.
    fn panel(x0: f64, y0: f64, x1: f64, y1: f64, dpi: f64) -> Measures {
        Measures {
            values: vec![
                (Quantity::PanelX0, x0),
                (Quantity::PanelY0, y0),
                (Quantity::PanelX1, x1),
                (Quantity::PanelY1, y1),
                (Quantity::Dpi, dpi),
            ],
        }
    }

    /// The same, with one quantity more.
    fn with(&self, q: Quantity, x: f64) -> Measures {
        let mut values: Vec<(Quantity, f64)> =
            self.values.iter().filter(|(p, _)| *p != q).cloned().collect();
        values.push((q, x));
        Measures { values }
    }

    fn get(&self, q: Quantity) -> f64 {
        match self.values.iter().find(|(p, _)| *p == q) {
            Some((_, x)) => *x,
            None => panic!("{:?} was not measured", q),
        }
    }
}

/// What the expression comes to.
fn value(e: &Expr, m: &Measures) -> f64 {
    match e {
        Expr::Lit(n) => float(*n),
        Expr::Ratio(p, q) => *p as f64 / *q as f64,
        Expr::Var(q) => m.get(*q),
        Expr::Neg(a) => -value(a, m),
        Expr::Add(a, b) => value(a, m) + value(b, m),
        Expr::Sub(a, b) => value(a, m) - value(b, m),
        Expr::Mul(a, b) => value(a, m) * value(b, m),
        Expr::Div(a, b) => value(a, m) / value(b, m),
        Expr::Min(a, b) => value(a, m).min(value(b, m)),
        Expr::Max(a, b) => value(a, m).max(value(b, m)),
        Expr::Clamp(a, lo, hi) => value(a, m).clamp(value(lo, m), value(hi, m)),
        Expr::Abs(a) => value(a, m).abs(),
        Expr::Sin(a) => value(a, m).sin(),
        Expr::Cos(a) => value(a, m).cos(),
        Expr::Sqrt(a) => value(a, m).sqrt(),
        Expr::Atan2(y, x) => value(y, m).atan2(value(x, m)),
        Expr::Select(c, a, b) => {
            if holds(c, m) {
                value(a, m)
            } else {
                value(b, m)
            }
        }
    }
}

/// Whether the condition holds.
fn holds(c: &Cond, m: &Measures) -> bool {
    match c {
        Cond::Always => true,
        Cond::Finite(a) => value(a, m).is_finite(),
        Cond::Gt(a, b) => value(a, m) > value(b, m),
        Cond::Ge(a, b) => value(a, m) >= value(b, m),
        Cond::Eq(a, b) => value(a, m) == value(b, m),
        Cond::Not(a) => !holds(a, m),
        Cond::And(a, b) => holds(a, m) && holds(b, m),
        Cond::Or(a, b) => holds(a, m) || holds(b, m),
    }
}

/// Where the point is.
fn place(p: &Point, m: &Measures) -> (f64, f64) {
    (value(&p.x, m), value(&p.y, m))
}

/// The names of the declared channels.
fn names_of(decls: &[ChannelDecl]) -> Vec<&str> {
    decls.iter().map(|d| d.name).collect()
}

/// Whether two numbers are the same but for rounding.
fn near(a: f64, b: f64) -> bool {
    (a - b).abs() < 1e-6
}

/// Points along the outline of a path.
fn outline(path: &Path, m: &Measures) -> Vec<(f64, f64)> {
    let arc = |c: (f64, f64), r: f64, start: f64, sweep: f64| -> Vec<(f64, f64)> {
        (0..=720)
            .map(|k| {
                let a = start + sweep * k as f64 / 720.0;
                (c.0 + r * a.cos(), c.1 + r * a.sin())
            })
            .collect()
    };
    match path {
        Path::Wedge { centre, radius, start, sweep } => {
            let c = place(centre, m);
            let mut points = arc(c, value(radius, m), value(start, m), value(sweep, m));
            points.push(c);
            points
        }
        Path::AnnularWedge { centre, inner, outer, start, sweep } => {
            let c = place(centre, m);
            let (a, b) = (value(start, m), value(sweep, m));
            let mut points = arc(c, value(outer, m), a, b);
            points.extend(arc(c, value(inner, m), a + b, -b));
            points
        }
        Path::Rect(r) | Path::RoundedRect(r, _) => {
            let (x0, y0, x1, y1) =
                (value(&r.x0, m), value(&r.y0, m), value(&r.x1, m), value(&r.y1, m));
            vec![(x0, y0), (x1, y0), (x1, y1), (x0, y1)]
        }
    }
}

/// The smallest upright rectangle round some points.
#[derive(Clone, Copy, Debug)]
struct Bounds {
    x0: f64,
    y0: f64,
    x1: f64,
    y1: f64,
}

impl Bounds {
    fn of(points: &[(f64, f64)]) -> Bounds {
        Bounds {
            x0: points.iter().fold(f64::INFINITY, |a, p| a.min(p.0)),
            y0: points.iter().fold(f64::INFINITY, |a, p| a.min(p.1)),
            x1: points.iter().fold(f64::NEG_INFINITY, |a, p| a.max(p.0)),
            y1: points.iter().fold(f64::NEG_INFINITY, |a, p| a.max(p.1)),
        }
    }

    fn width(&self) -> f64 {
        self.x1 - self.x0
    }

    fn height(&self) -> f64 {
        self.y1 - self.y0
    }

    fn cx(&self) -> f64 {
        (self.x0 + self.x1) * 0.5
    }

    fn cy(&self) -> f64 {
        (self.y0 + self.y1) * 0.5
    }
}

fn page() -> Measures {
    Measures::panel(0.0, 0.0, 100.0, 100.0, 96.0)
}

fn wedge(channels: Vec<(&str, Channel)>) -> WedgeGeom {
    built(WedgeGeom::build_from(builder_of(channels)))
}

fn paint_with(g: &WedgeGeom, scales: &ScaleOutputs) -> Vec<Op> {
    g.draw(scales)
        .into_iter()
        .filter(|step| holds(&step.when, &page()))
        .map(|step| step.op)
        .collect()
}

fn paint(g: &WedgeGeom) -> Vec<Op> {
    paint_with(g, &ScaleOutputs::new())
}

fn count_fills(ops: &[Op]) -> usize {
    ops.iter().filter(|op| matches!(op, Op::Fill { .. })).count()
}

fn first_fill_path(ops: &[Op]) -> Option<&Path> {
    ops.iter().find_map(|op| match op {
        Op::Fill { path, .. } => Some(path),
        _ => None,
    })
}

fn first_fill_bbox(ops: &[Op]) -> Option<Bounds> {
    first_fill_path(ops).map(|path| Bounds::of(&outline(path, &page())))
}

/// Two bands, each half of the panel.
fn two_bands(center: f64) -> ScaleOutputs {
    let mut scales = ScaleOutputs::new();
    scales.bind_positions("x".to_string(), bands(&[(center, 0.5)]));
    scales
}

#[test]
#[should_panic(expected = "missing required channel \"x\"")]
fn wedge_missing_x_panics() {
    wedge(vec![("y", numbers(&[0.5])), ("radius", numbers(&[10.0]))]);
}

#[test]
fn missing_radius_is_no_op() {
    let g = wedge(vec![
        ("x", numbers(&[0.5])),
        ("y", numbers(&[0.5])),
        ("fill", ink(red())),
    ]);
    assert!(paint(&g).is_empty());
}

#[test]
#[should_panic(expected = "does not match")]
fn wedge_length_mismatch_panics() {
    wedge(vec![
        ("x", numbers(&[0.5, 0.7])),
        ("y", numbers(&[0.5])),
        ("radius", numbers(&[10.0, 10.0])),
    ]);
}

#[test]
fn a_wedge_takes_no_unknown_channel() {
    let r = WedgeGeom::build_from(builder_of(vec![
        ("x", numbers(&[0.5])),
        ("y", numbers(&[0.5])),
        ("colour", number(1.0)),
    ]));
    let message = r.map(|_| ()).unwrap_err().message("");
    assert!(message.contains("unknown channel \"colour\""), "{}", message);
}

#[test]
fn full_circle_with_default_angles() {
    let g = wedge(vec![
        ("x", numbers(&[0.5])),
        ("y", numbers(&[0.5])),
        ("radius", numbers(&[24.0])),
        ("fill", ink(red())),
    ]);
    let bb = first_fill_bbox(&paint(&g)).expect("fill");
    assert!((bb.cx() - 50.0).abs() < 1e-3, "cx = {}", bb.cx());
    assert!((bb.cy() - 50.0).abs() < 1e-3, "cy = {}", bb.cy());
    assert!((bb.width() - 64.0).abs() < 1.0, "width = {}", bb.width());
    assert!((bb.height() - 64.0).abs() < 1.0, "height = {}", bb.height());
}

#[test]
fn top_right_quarter_via_math_convention() {
    let g = wedge(vec![
        ("x", numbers(&[0.5])),
        ("y", numbers(&[0.5])),
        ("radius", numbers(&[24.0])),
        ("theta", numbers(&[0.0])),
        ("theta2", numbers(&[PI / 2.0])),
        ("fill", ink(red())),
    ]);
    let bb = first_fill_bbox(&paint(&g)).expect("fill");
    assert!((bb.x0 - 50.0).abs() < 1.0, "x0 = {}", bb.x0);
    assert!((bb.x1 - 82.0).abs() < 1.0, "x1 = {}", bb.x1);
    assert!((bb.y0 - 18.0).abs() < 1.0, "y0 = {}", bb.y0);
    assert!((bb.y1 - 50.0).abs() < 1.0, "y1 = {}", bb.y1);
}

#[test]
fn annular_wedge_when_radius2_set() {
    let g = wedge(vec![
        ("x", numbers(&[0.5])),
        ("y", numbers(&[0.5])),
        ("radius", numbers(&[24.0])),
        ("radius2", numbers(&[12.0])),
        ("fill", ink(red())),
    ]);
    let ops = paint(&g);
    match first_fill_path(&ops).expect("fill") {
        Path::AnnularWedge { inner, outer, .. } => {
            assert!(near(value(inner, &page()), 16.0));
            assert!(near(value(outer, &page()), 32.0));
        }
        other => panic!("not annular: {:?}", other),
    }
}

#[test]
fn radius2_clamped_to_radius() {
    let g = wedge(vec![
        ("x", numbers(&[0.5])),
        ("y", numbers(&[0.5])),
        ("radius", numbers(&[12.0])),
        ("radius2", numbers(&[100.0])),
        ("fill", ink(red())),
    ]);
    for op in paint(&g) {
        if let Op::Fill { path: Path::AnnularWedge { inner, outer, .. }, .. } = op {
            assert!(value(&inner, &page()) <= value(&outer, &page()));
        }
    }
}

#[test]
fn zero_radius_skips_row() {
    let g = wedge(vec![
        ("x", numbers(&[0.5])),
        ("y", numbers(&[0.5])),
        ("radius", numbers(&[0.0])),
        ("fill", ink(red())),
    ]);
    assert!(paint(&g).is_empty());
}

#[test]
fn zero_sweep_skips_row() {
    let g = wedge(vec![
        ("x", numbers(&[0.5])),
        ("y", numbers(&[0.5])),
        ("radius", numbers(&[24.0])),
        ("theta", numbers(&[0.5])),
        ("theta2", numbers(&[0.5])),
        ("fill", ink(red())),
    ]);
    assert!(paint(&g).is_empty());
}

#[test]
fn wedge_nonfinite_position_skips_row() {
    let g = wedge(vec![
        ("x", numbers(&[0.5, f64::NAN])),
        ("y", numbers(&[0.5, 0.5])),
        ("radius", numbers(&[24.0, 24.0])),
        ("fill", ink(red())),
    ]);
    assert_eq!(count_fills(&paint(&g)), 1);
}

#[test]
fn wedge_no_fill_no_stroke_emits_nothing() {
    let g = wedge(vec![
        ("x", numbers(&[0.5])),
        ("y", numbers(&[0.5])),
        ("radius", numbers(&[24.0])),
    ]);
    assert!(paint(&g).is_empty());
}

#[test]
fn pie_slice_three_wedges_share_centre() {
    let third = TAU / 3.0;
    let g = wedge(vec![
        ("x", numbers(&[0.5, 0.5, 0.5])),
        ("y", numbers(&[0.5, 0.5, 0.5])),
        ("radius", numbers(&[24.0, 24.0, 24.0])),
        ("theta", numbers(&[0.0, third, 2.0 * third])),
        ("theta2", numbers(&[third, 2.0 * third, TAU])),
        ("fill", ink(red())),
    ]);
    assert_eq!(count_fills(&paint(&g)), 3);
}

#[test]
fn stroke_uses_linewidth_pt_to_px() {
    let g = wedge(vec![
        ("x", numbers(&[0.5])),
        ("y", numbers(&[0.5])),
        ("radius", numbers(&[24.0])),
        ("stroke", ink(red())),
        ("linewidth", number(2.0)),
    ]);
    let widths: Vec<f64> = paint(&g)
        .iter()
        .filter_map(|op| match op {
            Op::Stroke { pen, .. } => Some(value(&pen.width, &page())),
            _ => None,
        })
        .collect();
    assert_eq!(widths.len(), 1);
    assert!((widths[0] - 2.0 * 96.0 / 72.0).abs() < 1e-9);
}

#[test]
fn wedge_linetype_dashes_stroke() {
    let g = wedge(vec![
        ("x", numbers(&[0.5])),
        ("y", numbers(&[0.5])),
        ("radius", numbers(&[24.0])),
        ("stroke", ink(red())),
        ("linetype", dashed()),
    ]);
    assert!(paint(&g).iter().any(|op| match op {
        Op::Stroke { pen, .. } => pen.pattern.is_some(),
        _ => false,
    }));
}

#[test]
fn wedge_declared_channels_alphabetical() {
    let g = wedge(vec![
        ("x", numbers(&[0.0])),
        ("y", numbers(&[0.0])),
        ("radius", numbers(&[10.0])),
        ("fill", ink(red())),
    ]);
    let names = names_of(g.declared_channels());
    let mut sorted = names.clone();
    sorted.sort();
    assert_eq!(names, sorted);
    assert!(names.contains(&"radius"));
    assert!(!names.contains(&"x2"));
    assert!(!names.contains(&"y2"));
}

#[test]
fn wedge_pick_id_channel_passes_through_per_row() {
    let g = wedge(vec![
        ("x", numbers(&[0.3, 0.5, 0.7])),
        ("y", numbers(&[0.5, 0.5, 0.5])),
        ("radius", numbers(&[15.0, 15.0, 15.0])),
        ("fill", ink(red())),
        ("pick_id", numbers(&[7.0, 8.0, 9.0])),
    ]);
    let picks: Vec<u32> = paint(&g)
        .iter()
        .filter_map(|op| match op {
            Op::Fill { pick: PickId::Id(n), .. } => Some(*n),
            _ => None,
        })
        .collect();
    assert_eq!(picks, vec![7, 8, 9]);
}

#[test]
fn radius_band_sizes_to_discrete_x_band() {
    let g = wedge(vec![
        ("x", words(&["B"])),
        ("y", numbers(&[0.5])),
        ("radius_band", numbers(&[0.5])),
        ("fill", ink(red())),
    ]);
    let bb = first_fill_bbox(&paint_with(&g, &two_bands(0.75))).expect("fill");
    assert!((bb.cx() - 75.0).abs() < 1.0, "cx = {}", bb.cx());
    assert!((bb.width() - 50.0).abs() < 1.0, "width = {}", bb.width());
}

#[test]
fn radius_band_takes_the_smaller_band() {
    let g = wedge(vec![
        ("x", words(&["A"])),
        ("y", words(&["a"])),
        ("radius_band", numbers(&[0.5])),
        ("fill", ink(red())),
    ]);
    let mut scales = two_bands(0.25);
    scales.bind_positions("y".to_string(), bands(&[(0.5, 0.2)]));
    let bb = first_fill_bbox(&paint_with(&g, &scales)).expect("fill");
    assert!((bb.width() - 20.0).abs() < 1e-3, "width = {}", bb.width());
}

#[test]
fn radius_band_no_op_on_continuous_axes() {
    let g = wedge(vec![
        ("x", numbers(&[5.0])),
        ("y", numbers(&[0.5])),
        ("radius_band", numbers(&[0.5])),
        ("fill", ink(red())),
    ]);
    let mut scales = ScaleOutputs::new();
    scales.bind_positions("x".to_string(), bands(&[(0.5, 0.0)]));
    assert!(paint_with(&g, &scales).is_empty(), "expected no draw on continuous x");
}

#[test]
fn radius_pt_and_band_sum() {
    let g = wedge(vec![
        ("x", words(&["A"])),
        ("y", numbers(&[0.5])),
        ("radius", numbers(&[9.0])),
        ("radius_band", numbers(&[0.5])),
        ("fill", ink(red())),
    ]);
    let bb = first_fill_bbox(&paint_with(&g, &two_bands(0.25))).expect("fill");
    let radius_px = bb.width() * 0.5;
    assert!((radius_px - 37.0).abs() < 1.0, "radius_px = {}", radius_px);
}

#[test]
fn radius2_band_creates_band_sized_donut() {
    let g = wedge(vec![
        ("x", words(&["A"])),
        ("y", numbers(&[0.5])),
        ("radius_band", numbers(&[0.5])),
        ("radius2_band", numbers(&[0.25])),
        ("fill", ink(red())),
    ]);
    let ops = paint_with(&g, &two_bands(0.25));
    let bb = first_fill_bbox(&ops).expect("fill");
    assert!((bb.width() - 50.0).abs() < 1.5);
    match first_fill_path(&ops).expect("fill") {
        Path::AnnularWedge { inner, .. } => assert!(near(value(inner, &page()), 12.5)),
        other => panic!("annular path expected: {:?}", other),
    }
}

#[test]
fn x_offset_translates_centre_in_pt() {
    let g = wedge(vec![
        ("x", numbers(&[0.5])),
        ("y", numbers(&[0.5])),
        ("radius", numbers(&[24.0])),
        ("x_offset", numbers(&[9.0])),
        ("fill", ink(red())),
    ]);
    let bb = first_fill_bbox(&paint(&g)).expect("fill");
    assert!((bb.cx() - 62.0).abs() < 1e-3, "cx = {}", bb.cx());
}

#[test]
fn a_fill_comes_before_its_outline() {
    let g = wedge(vec![
        ("x", numbers(&[0.5])),
        ("y", numbers(&[0.5])),
        ("radius", number(24.0)),
        ("fill", ink(red())),
        ("fill_opacity", number(0.5)),
        ("stroke", ink(blue())),
    ]);
    let ops = paint(&g);
    assert_eq!(ops.len(), 2);
    match &ops[0] {
        Op::Fill { paint, .. } => {
            assert_eq!(paint.color, red());
            assert_eq!(paint.opacity, Some(num(0.5)));
        }
        other => panic!("{:?}", other),
    }
    assert!(matches!(&ops[1], Op::Stroke { paint, .. } if paint.color == blue()));
}

#[test]
fn a_wedge_can_be_changed_and_counted() {
    let mut g = wedge(vec![
        ("x", numbers(&[0.5, 0.5])),
        ("y", numbers(&[0.5, 0.5])),
        ("fill", ink(red())),
    ]);
    assert_eq!(g.len(), 2);
    assert!(!g.is_empty());
    assert!(!g.has_explicit_keys());
    built(g.set("radius", number(3.0)));
    assert_eq!(count_fills(&paint(&g)), 2);
    let mut b = g.edit();
    b.set("radius", number(0.0));
    built(g.update(b));
    assert_eq!(count_fills(&paint(&g)), 0);
    assert!(g.set("radius", numbers(&[3.0])).is_err());
    assert_eq!(g.len(), 2);
}
