//! Bands between two curves, on a page of 200 by 200 pixels at 96 dots per
//! inch.

use std::sync::Arc;

use hephaestus::channel::{Channel, ChannelDecl};
use hephaestus::expr::{Cond, Expr, Quantity};
use hephaestus::geom::builder::GeomBuilder;
use hephaestus::geom::error::BuildError;
use hephaestus::geom::ribbon_bspline::{
    CapFan, ContourPoint, CurveFacts, GridMerge, InterpolationSpace, Orientation, Ribbon,
    RibbonBSplineGeom, RibbonOp, blend_at, cap_ends, cap_fans, contour, control_rows,
};
use hephaestus::num::Num;
use hephaestus::projection::{EdgeFacts, Fractions, Projection};
use hephaestus::resolve::ScaleOutputs;
use hephaestus::scene::{Cap, Join, Path, Point, Rect};
use hephaestus::theme::RibbonTheme;
use hephaestus::value::{Color, DataColumn, Value};

/// The number `x`.
fn num(x: f64) -> Num {
    Num::from_bits(x.to_bits())
}

/// The number as the machine holds it.
fn float(x: Num) -> f64 {
    f64::from_bits(x.bits)
}

/// A column of numbers, mapped by the channel's scale.
fn numbers(xs: &[f64]) -> Channel {
    Channel::Data(DataColumn::F64(Arc::new(xs.iter().map(|x| num(*x)).collect())))
}

/// A column of numbers, taken as they are.
fn raw_numbers(xs: &[f64]) -> Channel {
    Channel::RawData(DataColumn::F64(Arc::new(xs.iter().map(|x| num(*x)).collect())))
}

/// One number for every row.
fn number(x: f64) -> Channel {
    Channel::Constant(Value::Number(num(x)))
}

/// One number for every row, taken as it is.
fn raw_number(x: f64) -> Channel {
    Channel::RawConstant(Value::Number(num(x)))
}

/// One string for every row.
fn word(x: &str) -> Channel {
    Channel::Constant(Value::String(x.to_string()))
}

/// A colour by its parts.
fn rgba(r: f32, g: f32, b: f32, a: f32) -> Color {
    Color { r: r.to_bits(), g: g.to_bits(), b: b.to_bits(), a: a.to_bits() }
}

fn red() -> Color {
    rgba(1.0, 0.0, 0.0, 1.0)
}

fn blue() -> Color {
    rgba(0.0, 0.0, 1.0, 1.0)
}

/// One colour for every row.
fn ink(c: Color) -> Channel {
    Channel::Constant(Value::Color(c))
}

/// A column of colours.
fn inks(cs: &[Color]) -> Channel {
    Channel::Data(DataColumn::Color(Arc::new(cs.to_vec())))
}

/// A builder that holds these channels.
fn builder_of(channels: Vec<(&str, Channel)>) -> GeomBuilder {
    let mut b = GeomBuilder::new();
    for (name, channel) in channels {
        b.set(name, channel);
    }
    b
}

/// The geom, or a panic with the reason why there is none.
fn built<T>(r: Result<T, BuildError>) -> T {
    match r {
        Ok(g) => g,
        Err(e) => panic!("{}", e.message("?")),
    }
}

/// What has been measured on the page.
#[derive(Clone)]
struct Measures {
    values: Vec<(Quantity, f64)>,
}

impl Measures {
    /// A panel, at this many dots per inch.
    fn panel(x0: f64, y0: f64, x1: f64, y1: f64, dpi: f64) -> Measures {
        Measures {
            values: vec![
                (Quantity::PanelX0, x0),
                (Quantity::PanelY0, y0),
                (Quantity::PanelX1, x1),
                (Quantity::PanelY1, y1),
                (Quantity::Dpi, dpi),
            ],
        }
    }

    /// The same, with one quantity more.
    fn with(&self, q: Quantity, x: f64) -> Measures {
        let mut values: Vec<(Quantity, f64)> =
            self.values.iter().filter(|(p, _)| *p != q).cloned().collect();
        values.push((q, x));
        Measures { values }
    }

    fn get(&self, q: Quantity) -> f64 {
        match self.values.iter().find(|(p, _)| *p == q) {
            Some((_, x)) => *x,
            None => panic!("{:?} was not measured", q),
        }
    }
}

/// What the expression comes to.
fn value(e: &Expr, m: &Measures) -> f64 {
    match e {
        Expr::Lit(n) => float(*n),
        Expr::Ratio(p, q) => *p as f64 / *q as f64,
        Expr::Var(q) => m.get(*q),
        Expr::Neg(a) => -value(a, m),
        Expr::Add(a, b) => value(a, m) + value(b, m),
        Expr::Sub(a, b) => value(a, m) - value(b, m),
        Expr::Mul(a, b) => value(a, m) * value(b, m),
        Expr::Div(a, b) => value(a, m) / value(b, m),
        Expr::Min(a, b) => value(a, m).min(value(b, m)),
        Expr::Max(a, b) => value(a, m).max(value(b, m)),
        Expr::Clamp(a, lo, hi) => value(a, m).clamp(value(lo, m), value(hi, m)),
        Expr::Abs(a) => value(a, m).abs(),
        Expr::Sin(a) => value(a, m).sin(),
        Expr::Cos(a) => value(a, m).cos(),
        Expr::Sqrt(a) => value(a, m).sqrt(),
        Expr::Atan2(y, x) => value(y, m).atan2(value(x, m)),
        Expr::Select(c, a, b) => {
            if holds(c, m) {
                value(a, m)
            } else {
                value(b, m)
            }
        }
    }
}

/// Whether the condition holds.
fn holds(c: &Cond, m: &Measures) -> bool {
    match c {
        Cond::Always => true,
        Cond::Finite(a) => value(a, m).is_finite(),
        Cond::Gt(a, b) => value(a, m) > value(b, m),
        Cond::Ge(a, b) => value(a, m) >= value(b, m),
        Cond::Eq(a, b) => value(a, m) == value(b, m),
        Cond::Not(a) => !holds(a, m),
        Cond::And(a, b) => holds(a, m) && holds(b, m),
        Cond::Or(a, b) => holds(a, m) || holds(b, m),
    }
}

/// Where the point is.
fn place(p: &Point, m: &Measures) -> (f64, f64) {
    (value(&p.x, m), value(&p.y, m))
}

/// The names of the declared channels.
fn names_of(decls: &[ChannelDecl]) -> Vec<&str> {
    decls.iter().map(|d| d.name).collect()
}

/// Whether two numbers are the same but for rounding.
fn near(a: f64, b: f64) -> bool {
    (a - b).abs() < 1e-6
}

/// Points along the outline of a path.
fn outline(path: &Path, m: &Measures) -> Vec<(f64, f64)> {
    let arc = |c: (f64, f64), r: f64, start: f64, sweep: f64| -> Vec<(f64, f64)> {
        (0..=720)
            .map(|k| {
                let a = start + sweep * k as f64 / 720.0;
                (c.0 + r * a.cos(), c.1 + r * a.sin())
            })
            .collect()
    };
    match path {
        Path::Wedge { centre, radius, start, sweep } => {
            let c = place(centre, m);
            let mut points = arc(c, value(radius, m), value(start, m), value(sweep, m));
            points.push(c);
            points
        }
        Path::AnnularWedge { centre, inner, outer, start, sweep } => {
            let c = place(centre, m);
            let (a, b) = (value(start, m), value(sweep, m));
            let mut points = arc(c, value(outer, m), a, b);
            points.extend(arc(c, value(inner, m), a + b, -b));
            points
        }
        Path::Rect(r) | Path::RoundedRect(r, _) => {
            let (x0, y0, x1, y1) =
                (value(&r.x0, m), value(&r.y0, m), value(&r.x1, m), value(&r.y1, m));
            vec![(x0, y0), (x1, y0), (x1, y1), (x0, y1)]
        }
    }
}

/// What the painter finds out about an edge.
fn edge_facts(p: &Projection, from: &Fractions, to: &Fractions, m: &Measures) -> EdgeFacts {
    let q = p.edge_questions(from, to);
    EdgeFacts { steps: value(&q.steps, m).ceil() as usize, rises: holds(&q.rises, m) }
}

/// What a band leaves on the page.
#[derive(Clone, Debug)]
enum Drawn {
    Fill { contour: Vec<(f64, f64)>, color: Color },
    Push { contour: Vec<(f64, f64)> },
    Fan {
        a: (f64, f64),
        b: (f64, f64),
        neighbor: (f64, f64),
        row: usize,
        samples: Vec<(f64, f64)>,
        at_start: bool,
    },
    Mesh { pairs: Vec<((f64, f64), (f64, f64))>, reds: Vec<f64> },
    Pop,
    Stroke { width: f64, color: Color },
}

fn page() -> Measures {
    Measures::panel(0.0, 0.0, 200.0, 200.0, 96.0)
        .with(Quantity::StartReach, 0.0)
        .with(Quantity::EndReach, 0.0)
}

fn theme() -> RibbonTheme {
    RibbonTheme {
        fill: None,
        stroke: None,
        linewidth_pt: num(1.0),
        cap: Cap::Butt,
        join: Join::Miter,
    }
}

/// The point of a spline over evenly spaced knots, clamped at its ends.
fn de_boor(points: &[(f64, f64)], degree: usize, t: f64) -> (f64, f64) {
    let n = points.len();
    let end = (n - degree) as f64;
    let knot = |i: usize| (i as f64 - degree as f64).clamp(0.0, end);
    let t = t.clamp(0.0, end);
    let mut k = degree;
    while k + 1 < n && t >= knot(k + 1) {
        k += 1;
    }
    let mut d: Vec<(f64, f64)> = (0..=degree).map(|j| points[j + k - degree]).collect();
    for r in 1..=degree {
        for j in (r..=degree).rev() {
            let (lo, hi) = (knot(j + k - degree), knot(j + 1 + k - r));
            let a = if hi > lo { (t - lo) / (hi - lo) } else { 0.0 };
            d[j] = (
                (1.0 - a) * d[j - 1].0 + a * d[j].0,
                (1.0 - a) * d[j - 1].1 + a * d[j].1,
            );
        }
    }
    d[degree]
}

/// Where fractions of the panel lie on the page.
fn projected(p: &Projection, at: (f64, f64)) -> (f64, f64) {
    place(&p.project(&Expr::Lit(num(at.0)), &Expr::Lit(num(at.1))), &page())
}

/// The points between the ends of a cap.
fn cap(p: &Projection, ends: &(Fractions, Fractions)) -> Vec<(f64, f64)> {
    let m = page();
    let mut samples = vec![];
    p.interpolate_segment(&ends.0, &ends.1, edge_facts(p, &ends.0, &ends.1, &m), &mut samples);
    samples.iter().filter(|(c, _)| holds(c, &m)).map(|(_, at)| place(at, &m)).collect()
}

fn paint_ribbon(ribbon: &Ribbon, p: &Projection) -> Vec<Drawn> {
    let m = page();
    if !holds(&ribbon.when, &m) {
        return vec![];
    }
    let placed: Vec<bool> = ribbon.rows.iter().map(|r| holds(&r.placed, &m)).collect();
    let kept = control_rows(&placed);
    let n = kept.len();
    if n < 2 {
        let facts = CurveFacts { controls: n, a: 0, b: 0, shared: 0, meshed: false };
        assert!(ribbon.ops(false, facts).is_empty());
        return vec![];
    }
    let at = |f: &Fractions| (value(&f.a, &m), value(&f.b, &m));
    let controls_a: Vec<(f64, f64)> = kept.iter().map(|k| at(&ribbon.rows[*k].a)).collect();
    let controls_b: Vec<(f64, f64)> = kept.iter().map(|k| at(&ribbon.rows[*k].b)).collect();
    let straight = ribbon.is_degenerate(n);
    let point = |controls: &[(f64, f64)], u: f64| -> (f64, f64) {
        if straight {
            return projected(p, controls[u as usize]);
        }
        let t = value(&ribbon.parameter(num(u), n), &m);
        match ribbon.space {
            InterpolationSpace::Domain => {
                projected(p, de_boor(controls, ribbon.degree as usize, t))
            }
            InterpolationSpace::Panel => {
                let bent: Vec<(f64, f64)> = controls.iter().map(|c| projected(p, *c)).collect();
                de_boor(&bent, ribbon.degree as usize, t)
            }
        }
    };
    let places: Vec<f64> = if straight {
        (0..n).map(|k| k as f64).collect()
    } else {
        (0..=32).map(|k| (n - 1) as f64 * k as f64 / 32.0).collect()
    };
    let edge_a: Vec<(f64, f64)> = places.iter().map(|u| point(&controls_a, *u)).collect();
    let edge_b: Vec<(f64, f64)> = places.iter().map(|u| point(&controls_b, *u)).collect();
    let nums: Vec<Num> = places.iter().map(|u| num(*u)).collect();
    let mut grid = GridMerge::new(&nums, &nums);
    while let Some(close) = grid.question() {
        grid.answer(holds(&close, &m));
    }
    let shared: Vec<f64> = grid.kept.iter().map(|u| float(*u)).collect();
    let (end_cap, start_cap) =
        cap_ends(&ribbon.rows[kept[0]], &ribbon.rows[kept[n - 1]]);
    let (end_cap, start_cap) = (cap(p, &end_cap), cap(p, &start_cap));
    let outline: Vec<(f64, f64)> =
        contour(edge_a.len(), end_cap.len(), edge_b.len(), start_cap.len())
            .iter()
            .map(|c| match c {
                ContourPoint::A(k) => edge_a[*k],
                ContourPoint::EndCap(k) => end_cap[*k],
                ContourPoint::B(k) => edge_b[*k],
                ContourPoint::StartCap(k) => start_cap[*k],
            })
            .collect();
    let facts = CurveFacts {
        controls: n,
        a: edge_a.len(),
        b: edge_b.len(),
        shared: shared.len(),
        meshed: true,
    };
    let mut out = vec![];
    for op in ribbon.ops(ribbon.varies(&kept), facts) {
        match op {
            RibbonOp::Fill => out.push(Drawn::Fill {
                contour: outline.clone(),
                color: ribbon.fill.expect("fill").color,
            }),
            RibbonOp::PushContour => out.push(Drawn::Push { contour: outline.clone() }),
            RibbonOp::Mesh => {
                let pairs =
                    shared.iter().map(|u| (point(&controls_a, *u), point(&controls_b, *u)));
                let redness = |k: usize| {
                    f32::from_bits(ribbon.row_paint(kept[k]).expect("fill").color.r) as f64
                };
                let reds = shared
                    .iter()
                    .map(|u| {
                        let blend = blend_at(num(*u), n);
                        if holds(&blend.on_row, &m) {
                            redness(blend.lo)
                        } else {
                            let t = value(&blend.t, &m);
                            (1.0 - t) * redness(blend.lo) + t * redness(blend.hi)
                        }
                    })
                    .collect();
                out.push(Drawn::Mesh { pairs: pairs.collect(), reds });
            }
            RibbonOp::Fan(fan) => {
                let exact = |at: (f64, f64)| Point {
                    x: Expr::Lit(num(at.0)),
                    y: Expr::Lit(num(at.1)),
                };
                let on = |controls: &[(f64, f64)]| -> Vec<Point> {
                    shared.iter().map(|u| exact(point(controls, *u))).collect()
                };
                let caps = |cap: &[(f64, f64)]| -> Vec<Point> {
                    cap.iter().map(|at| exact(*at)).collect()
                };
                let plan = fan.plan(
                    &on(&controls_a),
                    &on(&controls_b),
                    &grid.kept,
                    n,
                    &caps(&start_cap),
                    &caps(&end_cap),
                );
                assert!(holds(&plan.color.on_row, &m));
                out.push(Drawn::Fan {
                    a: place(&plan.a, &m),
                    b: place(&plan.b, &m),
                    neighbor: place(&plan.neighbor, &m),
                    row: plan.color.lo,
                    samples: plan.samples.iter().map(|at| place(at, &m)).collect(),
                    at_start: plan.at_start,
                });
            }
            RibbonOp::PopLayer => out.push(Drawn::Pop),
            RibbonOp::OutlineA | RibbonOp::OutlineB => {
                let edge = if op == RibbonOp::OutlineA {
                    &ribbon.outline_a
                } else {
                    &ribbon.outline_b
                };
                let edge = edge.as_ref().expect("outline");
                if holds(&edge.when, &m) {
                    out.push(Drawn::Stroke {
                        width: value(&edge.pen.width, &m),
                        color: edge.stroke.color,
                    });
                }
            }
        }
    }
    out
}

fn ribbon(channels: Vec<(&str, Channel)>) -> RibbonBSplineGeom {
    built(RibbonBSplineGeom::build_from(builder_of(channels)))
}

fn paint_on(mut g: RibbonBSplineGeom, p: &Projection) -> Vec<Drawn> {
    g.rebuild_diff_against_previous();
    g.draw(&ScaleOutputs::new(), &theme())
        .iter()
        .flat_map(|r| paint_ribbon(r, p))
        .collect()
}

fn paint(g: RibbonBSplineGeom) -> Vec<Drawn> {
    paint_on(g, &Projection::cartesian())
}

fn count_fills(drawn: &[Drawn]) -> usize {
    drawn.iter().filter(|d| matches!(d, Drawn::Fill { .. })).count()
}

fn count_meshes(drawn: &[Drawn]) -> usize {
    drawn.iter().filter(|d| matches!(d, Drawn::Mesh { .. })).count()
}

fn count_strokes(drawn: &[Drawn]) -> usize {
    drawn.iter().filter(|d| matches!(d, Drawn::Stroke { .. })).count()
}

fn fill_contour(drawn: &[Drawn]) -> Vec<(f64, f64)> {
    match drawn.iter().find(|d| matches!(d, Drawn::Fill { .. })) {
        Some(Drawn::Fill { contour, .. }) => contour.clone(),
        _ => panic!("no fill emitted"),
    }
}

#[test]
fn explicit_y2_selects_horizontal() {
    let g = ribbon(vec![
        ("x", numbers(&[0.0, 0.25, 0.5, 0.75, 1.0])),
        ("y", numbers(&[0.8, 0.7, 0.9, 0.6, 0.8])),
        ("y2", number(0.2)),
    ]);
    assert_eq!(g.orientation, Orientation::Horizontal);
}

#[test]
fn x2_selects_vertical_mode() {
    let g = ribbon(vec![
        ("x", numbers(&[0.5, 0.6, 0.5, 0.4, 0.5])),
        ("y", numbers(&[0.0, 0.25, 0.5, 0.75, 1.0])),
        ("x2", number(0.2)),
    ]);
    assert_eq!(g.orientation, Orientation::Vertical);
}

#[test]
fn both_x2_and_y2_selects_free() {
    let g = ribbon(vec![
        ("x", numbers(&[0.0, 0.5, 1.0])),
        ("y", numbers(&[0.0, 1.0, 0.0])),
        ("x2", numbers(&[0.2, 0.5, 0.8])),
        ("y2", numbers(&[0.2, 0.7, 0.2])),
    ]);
    assert_eq!(g.orientation, Orientation::Free);
}

#[test]
#[should_panic(expected = "needs at least one")]
fn no_curve_b_channel_panics() {
    ribbon(vec![("x", numbers(&[0.0, 1.0])), ("y", numbers(&[0.0, 1.0]))]);
}

#[test]
fn solid_fill_emits_one_path_fill() {
    let drawn = paint(ribbon(vec![
        ("x", raw_numbers(&[0.1, 0.3, 0.5, 0.7, 0.9])),
        ("y", raw_numbers(&[0.6, 0.8, 0.9, 0.7, 0.6])),
        ("y2", raw_number(0.2)),
        ("fill", ink(red())),
    ]));
    assert_eq!(count_fills(&drawn), 1);
    assert_eq!(count_meshes(&drawn), 0);
    assert!(matches!(drawn[0], Drawn::Fill { color, .. } if color == red()));
}

#[test]
fn varying_fill_uses_mesh() {
    let drawn = paint(ribbon(vec![
        ("x", raw_numbers(&[0.1, 0.3, 0.5, 0.7, 0.9])),
        ("y", raw_numbers(&[0.6, 0.8, 0.9, 0.7, 0.6])),
        ("y2", raw_number(0.2)),
        ("fill", inks(&[red(), blue(), red(), blue(), red()])),
    ]));
    assert_eq!(count_meshes(&drawn), 1, "expected mesh dispatch for varying fill");
    assert_eq!(count_fills(&drawn), 0, "fill should not be emitted alongside mesh");
}

#[test]
fn a_mesh_blends_its_rows() {
    let drawn = paint(ribbon(vec![
        ("x", raw_numbers(&[0.1, 0.3, 0.5, 0.7, 0.9])),
        ("y", raw_numbers(&[0.6, 0.8, 0.9, 0.7, 0.6])),
        ("y2", raw_number(0.2)),
        ("fill", inks(&[red(), blue(), red(), blue(), red()])),
    ]));
    match &drawn[1] {
        Drawn::Mesh { pairs, reds } => {
            // Thirty-three places over four steps: a row at every eighth.
            assert_eq!(pairs.len(), 33);
            assert!(near(reds[0], 1.0) && near(reds[8], 0.0) && near(reds[32], 1.0));
            assert!(near(reds[4], 0.5) && near(reds[2], 0.75));
            // The edges meet their first and last control points.
            assert!(near(pairs[0].0 .0, 20.0) && near(pairs[0].0 .1, 80.0));
            assert!(near(pairs[0].1 .0, 20.0) && near(pairs[0].1 .1, 160.0));
            assert!(near(pairs[32].0 .0, 180.0) && near(pairs[32].0 .1, 80.0));
        }
        other => panic!("{:?}", other),
    }
}

#[test]
fn four_point_cubic_passes_through_endpoints() {
    let contour = fill_contour(&paint(ribbon(vec![
        ("x", raw_numbers(&[0.1, 0.3, 0.7, 0.9])),
        ("y", raw_numbers(&[0.8, 0.9, 0.9, 0.8])),
        ("y2", raw_numbers(&[0.2, 0.1, 0.1, 0.2])),
        ("fill", ink(red())),
    ])));
    let start = contour[0];
    assert!((start.0 - 20.0).abs() < 1.0);
    assert!((start.1 - 40.0).abs() < 1.0);
}

#[test]
fn two_control_points_per_curve_renders_as_quad() {
    let contour = fill_contour(&paint(ribbon(vec![
        ("x", raw_numbers(&[0.1, 0.9])),
        ("y", raw_numbers(&[0.8, 0.7])),
        ("y2", raw_numbers(&[0.2, 0.3])),
        ("fill", ink(red())),
    ])));
    // A start and three lines.
    assert_eq!(contour.len() - 1, 3);
    assert!(near(contour[0].0, 20.0) && near(contour[0].1, 40.0));
    assert!(near(contour[3].0, 20.0) && near(contour[3].1, 160.0));
}

#[test]
fn single_row_emits_nothing() {
    let drawn = paint(ribbon(vec![
        ("x", raw_numbers(&[0.5])),
        ("y", raw_numbers(&[0.5])),
        ("y2", raw_number(0.2)),
        ("fill", ink(red())),
    ]));
    assert!(drawn.is_empty());
}

#[test]
fn ribbon_bspline_no_fill_no_stroke_emits_nothing() {
    let drawn = paint(ribbon(vec![
        ("x", raw_numbers(&[0.1, 0.5, 0.9])),
        ("y", raw_numbers(&[0.5, 0.7, 0.5])),
        ("y2", raw_number(0.2)),
    ]));
    assert!(drawn.is_empty());
}

#[test]
fn stroke_only_curve_a_emits_one_stroke() {
    let drawn = paint(ribbon(vec![
        ("x", raw_numbers(&[0.1, 0.3, 0.7, 0.9])),
        ("y", raw_numbers(&[0.6, 0.8, 0.9, 0.7])),
        ("y2", raw_number(0.2)),
        ("stroke", ink(red())),
        ("linewidth", number(2.0)),
    ]));
    assert_eq!(count_strokes(&drawn), 1);
}

#[test]
fn stroke_both_curves_emits_two_strokes() {
    let drawn = paint(ribbon(vec![
        ("x", raw_numbers(&[0.1, 0.3, 0.7, 0.9])),
        ("y", raw_numbers(&[0.6, 0.8, 0.9, 0.7])),
        ("y2", raw_numbers(&[0.2, 0.3, 0.3, 0.2])),
        ("stroke", ink(red())),
        ("stroke2", ink(blue())),
        ("linewidth", number(2.0)),
        ("linewidth2", number(2.0)),
    ]));
    assert_eq!(count_strokes(&drawn), 2);
    assert!(matches!(drawn[0], Drawn::Stroke { width, color }
        if near(width, 2.0 * 96.0 / 72.0) && color == red()));
    assert!(matches!(drawn[1], Drawn::Stroke { width, color }
        if near(width, 2.0 * 96.0 / 72.0) && color == blue()));
}

#[test]
fn polar_band_caps_are_densified_in_panel_mode() {
    let g = ribbon(vec![
        ("x", raw_numbers(&[0.1, 0.5, 0.9])),
        ("y", raw_numbers(&[0.8, 0.85, 0.8])),
        ("x2", raw_numbers(&[0.2, 0.5, 0.8])),
        ("y2", raw_numbers(&[0.4, 0.45, 0.4])),
        ("interpolation", word("panel")),
        ("fill", ink(red())),
    ]);
    let contour = fill_contour(&paint_on(g, &Projection::polar()));
    let off_chord = contour
        .windows(3)
        .filter(|w| {
            let (a, b, c) = (w[0], w[1], w[2]);
            ((b.0 - a.0) * (c.1 - a.1) - (b.1 - a.1) * (c.0 - a.0)).abs() > 0.5
        })
        .count();
    assert!(off_chord > 0, "expected a bent cap");
    // Three points on each edge, and the caps have some of their own.
    assert!(contour.len() > 6, "{}", contour.len());
}

#[test]
fn polar_mesh_path_wraps_in_clip_layer() {
    let g = ribbon(vec![
        ("x", raw_numbers(&[0.1, 0.5, 0.9])),
        ("y", raw_numbers(&[0.8, 0.85, 0.8])),
        ("x2", raw_numbers(&[0.2, 0.5, 0.8])),
        ("y2", raw_numbers(&[0.4, 0.45, 0.4])),
        ("fill", inks(&[red(), blue(), red()])),
    ]);
    let drawn = paint_on(g, &Projection::polar());
    assert_eq!(drawn.len(), 5);
    assert!(matches!(&drawn[0], Drawn::Push { contour } if contour.len() > 6));
    assert!(matches!(drawn[1], Drawn::Mesh { .. }));
    assert!(matches!(drawn[2], Drawn::Fan { at_start: true, .. }));
    assert!(matches!(drawn[3], Drawn::Fan { at_start: false, .. }));
    assert!(matches!(drawn[4], Drawn::Pop));
}

/// How many corners and triangles a mesh comes to: four corners and two
/// triangles for each of its quads, and for each fan that bulges away from the
/// mesh one triangle between any two of its points, from a corner of its own in
/// the middle.
fn mesh_size(drawn: &[Drawn]) -> (usize, usize) {
    let mut size = (0, 0);
    for d in drawn {
        match d {
            Drawn::Mesh { pairs, .. } => {
                size = (size.0 + 4 * (pairs.len() - 1), size.1 + 2 * (pairs.len() - 1));
            }
            Drawn::Fan { a, b, neighbor, samples, .. } => {
                let middle = ((a.0 + b.0) / 2.0, (a.1 + b.1) / 2.0);
                let bulge = samples.iter().fold((0.0, 0.0), |s, p| {
                    (s.0 + p.0 - middle.0, s.1 + p.1 - middle.1)
                });
                let inwards = (neighbor.0 - middle.0, neighbor.1 - middle.1);
                if bulge.0 * inwards.0 + bulge.1 * inwards.1 < 0.0 {
                    size = (size.0 + samples.len() + 3, size.1 + samples.len() + 1);
                }
            }
            _ => {}
        }
    }
    size
}

#[test]
fn polar_mesh_path_appends_cap_fan_triangles_for_outward_bulge() {
    let g = ribbon(vec![
        ("x", raw_numbers(&[0.1, 0.1, 0.9, 0.9])),
        ("y", raw_numbers(&[0.9, 0.0, 0.0, 0.9])),
        ("x2", raw_numbers(&[0.2, 0.2, 0.8, 0.8])),
        ("y2", raw_numbers(&[0.9, 0.0, 0.0, 0.9])),
        ("fill", inks(&[red(), red(), blue(), blue()])),
    ]);
    let drawn = paint_on(g, &Projection::polar());
    let strip_n_pairs = mesh_size(&drawn).0 / 4;
    let strip_triangles = 2 * (strip_n_pairs - 1);
    let triangles = mesh_size(&drawn).1;
    assert!(triangles > strip_triangles, "{} against {}", triangles, strip_triangles);
    // Both fans reach beyond the quads.
    let quads: usize = drawn
        .iter()
        .map(|d| match d {
            Drawn::Mesh { pairs, .. } => pairs.len() - 1,
            _ => 0,
        })
        .sum();
    let rounded: usize = drawn
        .iter()
        .map(|d| match d {
            Drawn::Fan { samples, .. } => samples.len() + 1,
            _ => 0,
        })
        .sum();
    assert!(rounded > 2);
    assert_eq!(triangles, 2 * quads + rounded);
}

#[test]
fn polar_mesh_path_skips_cap_fan_when_cap_bulges_into_strip() {
    let g = ribbon(vec![
        ("x", raw_numbers(&[0.1, 0.5, 0.9])),
        ("y", raw_numbers(&[0.8, 0.85, 0.8])),
        ("x2", raw_numbers(&[0.2, 0.5, 0.8])),
        ("y2", raw_numbers(&[0.4, 0.45, 0.4])),
        ("fill", inks(&[red(), blue(), red()])),
    ]);
    let drawn = paint_on(g, &Projection::polar());
    let (corners, triangles) = mesh_size(&drawn);
    assert_eq!(corners % 4, 0, "{}", corners);
    assert_eq!(3 * triangles % 6, 0, "{}", 3 * triangles);
    // Quads alone: two triangles for every four corners.
    assert_eq!(corners, 2 * triangles);
}

#[test]
fn fans_stand_at_the_ends_of_a_mesh() {
    let fans = cap_fans(5);
    assert_eq!(fans[0], CapFan { corner: 0, neighbor: 1, at_start: true });
    assert_eq!(fans[1], CapFan { corner: 4, neighbor: 3, at_start: false });
    assert_eq!(fans.len(), 2);
    let drawn = paint(ribbon(vec![
        ("x", raw_numbers(&[0.0, 0.5, 1.0])),
        ("y", raw_numbers(&[1.0, 0.75, 0.5])),
        ("y2", raw_numbers(&[0.0, 0.25, 0.0])),
        ("degree", number(3.0)),
        ("fill", inks(&[red(), blue(), red()])),
    ]));
    match (&drawn[2], &drawn[3]) {
        (
            Drawn::Fan { a, b, neighbor, row, samples, at_start: true },
            Drawn::Fan { a: c, b: d, neighbor: last, row: other, at_start: false, .. },
        ) => {
            assert_eq!((*a, *b), ((0.0, 0.0), (0.0, 200.0)));
            assert_eq!(*neighbor, (100.0, 100.0));
            assert_eq!((*row, *other), (0, 2));
            assert!(samples.is_empty());
            assert_eq!((*c, *d), ((200.0, 100.0), (200.0, 200.0)));
            assert_eq!(*last, (100.0, 100.0));
        }
        _ => panic!("two fans"),
    }
}

#[test]
fn ribbon_bspline_declared_channels_alphabetical() {
    let g = ribbon(vec![
        ("x", numbers(&[0.0, 1.0, 2.0])),
        ("y", numbers(&[1.0, 2.0, 1.0])),
        ("y2", number(0.0)),
        ("fill", ink(red())),
    ]);
    let names = names_of(g.declared_channels());
    let mut sorted = names.clone();
    sorted.sort();
    assert_eq!(names, sorted);
}

#[test]
fn rows_that_lie_nowhere_are_left_out_of_both_edges() {
    let contour = fill_contour(&paint(ribbon(vec![
        ("x", raw_numbers(&[0.1, f64::NAN, 0.9])),
        ("y", raw_numbers(&[0.8, 0.5, 0.7])),
        ("y2", raw_numbers(&[0.2, 0.5, 0.3])),
        ("fill", ink(red())),
    ])));
    assert_eq!(contour.len(), 4);
}

#[test]
fn so_few_control_points_make_straight_edges() {
    let drawn = |degree: f64| {
        let g = ribbon(vec![
            ("x", raw_numbers(&[0.1, 0.5, 0.9])),
            ("y", raw_numbers(&[0.8, 0.5, 0.7])),
            ("y2", raw_number(0.2)),
            ("degree", number(degree)),
            ("fill", ink(red())),
        ]);
        g.draw(&ScaleOutputs::new(), &theme()).remove(0)
    };
    assert!(drawn(3.0).is_degenerate(3));
    assert!(!drawn(2.0).is_degenerate(3));
    assert!(!drawn(2.9).is_degenerate(3));
    assert!(!drawn(0.0).is_degenerate(2));
    assert!(drawn(0.0).is_degenerate(1));
    assert!(drawn(f64::INFINITY).is_degenerate(5));
    assert_eq!(drawn(f64::NAN).degree, 0);
}

#[test]
fn places_run_over_the_whole_curve() {
    let g = ribbon(vec![
        ("x", raw_numbers(&[0.1, 0.3, 0.5, 0.7, 0.9])),
        ("y", raw_numbers(&[0.6, 0.8, 0.9, 0.7, 0.6])),
        ("y2", raw_number(0.2)),
        ("fill", ink(red())),
    ]);
    let r = g.draw(&ScaleOutputs::new(), &theme()).remove(0);
    assert_eq!(value(&r.parameter(num(0.0), 5), &page()), 0.0);
    assert_eq!(value(&r.parameter(num(2.0), 5), &page()), 1.0);
    assert_eq!(value(&r.parameter(num(4.0), 5), &page()), 2.0);
}

#[test]
fn shared_places_are_a_billionth_apart() {
    let a = [0.0, 1.0, 2.0].map(num).to_vec();
    let b = [0.0, 0.5, 1.0 + 1e-12, 2.0].map(num).to_vec();
    let mut grid = GridMerge::new(&a, &b);
    while let Some(close) = grid.question() {
        grid.answer(holds(&close, &page()));
    }
    let kept: Vec<f64> = grid.kept.iter().map(|u| float(*u)).collect();
    assert_eq!(kept, vec![0.0, 0.5, 1.0, 2.0]);
    assert!(GridMerge::new(&vec![], &vec![]).question().is_none());
}

#[test]
fn a_contour_goes_out_and_back() {
    assert_eq!(
        contour(2, 1, 2, 1),
        vec![
            ContourPoint::A(0),
            ContourPoint::A(1),
            ContourPoint::EndCap(0),
            ContourPoint::B(1),
            ContourPoint::B(0),
            ContourPoint::StartCap(0),
        ]
    );
}

#[test]
fn a_ribbon_can_be_changed_and_counted() {
    let mut b = builder_of(vec![
        ("x", raw_numbers(&[0.1, 0.9, 0.1, 0.9])),
        ("y", raw_numbers(&[0.8, 0.7, 0.8, 0.7])),
        ("y2", raw_number(0.2)),
        ("fill", ink(red())),
    ]);
    let keys = ["A", "A", "B", "B"].iter().map(|k| k.to_string()).collect();
    b.keys(DataColumn::String(Arc::new(keys)));
    let mut g = built(RibbonBSplineGeom::build_from(b));
    assert_eq!(g.len(), 4);
    assert!(!g.is_empty());
    assert_eq!(g.build_marks().len(), 2);
    g.rebuild_diff_against_previous();
    assert_eq!(g.mark_count(), 2);
    assert_eq!(g.state.enter, vec![0, 1]);
    assert_eq!(g.draw(&ScaleOutputs::new(), &theme()).len(), 2);
    built(g.set("fill", ink(blue())));
    assert!(g.state.dirty);
    let mut b = g.edit();
    b.set("y2", raw_number(0.1));
    built(g.update(b));
    g.rebuild_diff_against_previous();
    assert_eq!(g.state.update, vec![(0, 0), (1, 1)]);
    g.invalidate_caches();
    assert_eq!(g.mark_count(), 2);
}
