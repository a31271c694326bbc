//! Segments, drawn on a page of 100 by 100 pixels at 96 dots per inch.

use std::f64::consts::FRAC_PI_2;
use std::sync::Arc;

use hephaestus::channel::{Channel, ChannelDecl};
use hephaestus::expr::{Cond, Expr, Quantity};
use hephaestus::geom::builder::GeomBuilder;
use hephaestus::geom::error::BuildError;
use hephaestus::geom::marker::EndMarker;
use hephaestus::geom::segment::{SegmentGeom, SegmentOp};
use hephaestus::num::Num;
use hephaestus::pick::PickId;
use hephaestus::projection::Projection;
use hephaestus::resolve::{BandPosition, ScaleOutputs};
use hephaestus::scene::{Cap, Join, Point, Xform};
use hephaestus::theme::SegmentTheme;
use hephaestus::value::{Color, DataColumn, LinetypeStep, Value};

/// The number `x`.
fn num(x: f64) -> Num {
    Num::from_bits(x.to_bits())
}

/// The number as the machine holds it.
fn float(x: Num) -> f64 {
    f64::from_bits(x.bits)
}

/// A column of numbers, mapped by the channel's scale.
fn numbers(xs: &[f64]) -> Channel {
    Channel::Data(DataColumn::F64(Arc::new(xs.iter().map(|x| num(*x)).collect())))
}

/// A column of numbers, taken as they are.
fn raw_numbers(xs: &[f64]) -> Channel {
    Channel::RawData(DataColumn::F64(Arc::new(xs.iter().map(|x| num(*x)).collect())))
}

/// One number for every row.
fn number(x: f64) -> Channel {
    Channel::Constant(Value::Number(num(x)))
}

/// A column of strings.
fn words(xs: &[&str]) -> Channel {
    Channel::Data(DataColumn::String(Arc::new(xs.iter().map(|x| x.to_string()).collect())))
}

/// One string for every row.
fn word(x: &str) -> Channel {
    Channel::Constant(Value::String(x.to_string()))
}

/// One truth value for every row.
fn flag(x: bool) -> Channel {
    Channel::Constant(Value::Bool(x))
}

/// A colour by its parts.
fn rgba(r: f32, g: f32, b: f32, a: f32) -> Color {
    Color { r: r.to_bits(), g: g.to_bits(), b: b.to_bits(), a: a.to_bits() }
}

fn red() -> Color {
    rgba(1.0, 0.0, 0.0, 1.0)
}

fn green() -> Color {
    rgba(0.0, 1.0, 0.0, 1.0)
}

fn blue() -> Color {
    rgba(0.0, 0.0, 1.0, 1.0)
}

/// One colour for every row.
fn ink(c: Color) -> Channel {
    Channel::Constant(Value::Color(c))
}

/// Ink over four points, none over four.
fn dashed() -> Channel {
    Channel::Constant(Value::Linetype(Arc::new(vec![
        LinetypeStep::Dash(num(4.0)),
        LinetypeStep::Gap(num(4.0)),
    ])))
}

/// A builder that holds these channels.
fn builder_of(channels: Vec<(&str, Channel)>) -> GeomBuilder {
    let mut b = GeomBuilder::new();
    for (name, channel) in channels {
        b.set(name, channel);
    }
    b
}

/// The geom, or a panic with the reason why there is none.
fn built<T>(r: Result<T, BuildError>) -> T {
    match r {
        Ok(g) => g,
        Err(e) => panic!("{}", e.message("?")),
    }
}

/// Places that a scale with bands gives, for each row: centre and room.
fn bands(xs: &[(f64, f64)]) -> Arc<Vec<BandPosition>> {
    Arc::new(
        xs.iter()
            .map(|(center, band)| BandPosition { center: num(*center), band: num(*band) })
            .collect(),
    )
}

/// What has been measured on the page.
#[derive(Clone)]
struct Measures {
    values: Vec<(Quantity, f64)>,
}

impl Measures {
    /// A panel, at this many dots per inch.
    fn panel(x0: f64, y0: f64, x1: f64, y1: f64, dpi: f64) -> Measures {
        Measures {
            values: vec![
                (Quantity::PanelX0, x0),
                (Quantity::PanelY0, y0),
                (Quantity::PanelX1, x1),
                (Quantity::PanelY1, y1),
                (Quantity::Dpi, dpi),
            ],
        }
    }

    /// The same, with one quantity more.
    fn with(&self, q: Quantity, x: f64) -> Measures {
        let mut values: Vec<(Quantity, f64)> =
            self.values.iter().filter(|(p, _)| *p != q).cloned().collect();
        values.push((q, x));
        Measures { values }
    }

    fn get(&self, q: Quantity) -> f64 {
        match self.values.iter().find(|(p, _)| *p == q) {
            Some((_, x)) => *x,
            None => panic!("{:?} was not measured", q),
        }
    }
}

/// What the expression comes to.
fn value(e: &Expr, m: &Measures) -> f64 {
    match e {
        Expr::Lit(n) => float(*n),
        Expr::Ratio(p, q) => *p as f64 / *q as f64,
        Expr::Var(q) => m.get(*q),
        Expr::Neg(a) => -value(a, m),
        Expr::Add(a, b) => value(a, m) + value(b, m),
        Expr::Sub(a, b) => value(a, m) - value(b, m),
        Expr::Mul(a, b) => value(a, m) * value(b, m),
        Expr::Div(a, b) => value(a, m) / value(b, m),
        Expr::Min(a, b) => value(a, m).min(value(b, m)),
        Expr::Max(a, b) => value(a, m).max(value(b, m)),
        Expr::Clamp(a, lo, hi) => value(a, m).clamp(value(lo, m), value(hi, m)),
        Expr::Abs(a) => value(a, m).abs(),
        Expr::Sin(a) => value(a, m).sin(),
        Expr::Cos(a) => value(a, m).cos(),
        Expr::Sqrt(a) => value(a, m).sqrt(),
        Expr::Atan2(y, x) => value(y, m).atan2(value(x, m)),
        Expr::Select(c, a, b) => {
            if holds(c, m) {
                value(a, m)
            } else {
                value(b, m)
            }
        }
    }
}

/// Whether the condition holds.
fn holds(c: &Cond, m: &Measures) -> bool {
    match c {
        Cond::Always => true,
        Cond::Finite(a) => value(a, m).is_finite(),
        Cond::Gt(a, b) => value(a, m) > value(b, m),
        Cond::Ge(a, b) => value(a, m) >= value(b, m),
        Cond::Eq(a, b) => value(a, m) == value(b, m),
        Cond::Not(a) => !holds(a, m),
        Cond::And(a, b) => holds(a, m) && holds(b, m),
        Cond::Or(a, b) => holds(a, m) || holds(b, m),
    }
}

/// Where the point is.
fn place(p: &Point, m: &Measures) -> (f64, f64) {
    (value(&p.x, m), value(&p.y, m))
}

/// Where the transform takes the point.
fn turned(x: &Xform, p: (f64, f64), m: &Measures) -> (f64, f64) {
    match x {
        Xform::Identity => p,
        Xform::RotateAbout { angle, at } => {
            let (s, c) = value(angle, m).sin_cos();
            let (ax, ay) = place(at, m);
            let (dx, dy) = (p.0 - ax, p.1 - ay);
            (ax + c * dx - s * dy, ay + s * dx + c * dy)
        }
    }
}

/// The names of the declared channels.
fn names_of(decls: &[ChannelDecl]) -> Vec<&str> {
    decls.iter().map(|d| d.name).collect()
}

/// Whether two numbers are the same but for rounding.
fn near(a: f64, b: f64) -> bool {
    (a - b).abs() < 1e-6
}

/// What a segment leaves on the page.
#[derive(Clone, Debug)]
enum Drawn {
    Stroke {
        points: Vec<(f64, f64)>,
        width: f64,
        dashes: bool,
        pick: PickId,
    },
    Marker {
        anchor: (f64, f64),
        heading: (f64, f64),
        size: f64,
        fill: Color,
    },
}

impl Drawn {
    /// Where a point of the marker's shape lands. The shape is an arrow from
    /// `(-1, 0)`, its anchor, to the tip at the origin.
    fn lands(&self, x: f64, y: f64) -> (f64, f64) {
        match self {
            Drawn::Marker { anchor, heading, size, .. } => (
                anchor.0 + size * (heading.0 * (x + 1.0) - heading.1 * y),
                anchor.1 + size * (heading.1 * (x + 1.0) + heading.0 * y),
            ),
            Drawn::Stroke { .. } => panic!("not a marker"),
        }
    }
}

/// How far a marker's shape reaches past its anchor, in units of its size.
/// Nothing where there is no such shape.
fn reach(marker: &Option<EndMarker>) -> f64 {
    match marker {
        Some(k) if k.name == "arrow-closed" && !k.invert => 1.0,
        _ => 0.0,
    }
}

/// Draws a marker, if there is one and its shape is known.
fn draw_marker(marker: &Option<EndMarker>, at: (f64, f64), out: (f64, f64), m: &Measures) -> Vec<Drawn> {
    match marker {
        Some(k) if k.name == "arrow-closed" => {
            let side = if k.invert { -1.0 } else { 1.0 };
            vec![Drawn::Marker {
                anchor: at,
                heading: (side * out.0, side * out.1),
                size: value(&k.size, m),
                fill: k.fill.color,
            }]
        }
        _ => vec![],
    }
}

fn theme() -> SegmentTheme {
    SegmentTheme { stroke: None, linewidth_pt: num(1.0), cap: Cap::Butt, join: Join::Miter }
}

/// What the geom leaves on the page.
fn paint_with(g: &SegmentGeom, scales: &ScaleOutputs) -> Vec<Drawn> {
    let mut out = vec![];
    for row in g.draw(scales, &theme(), &Projection::cartesian()) {
        let m = Measures::panel(0.0, 0.0, 100.0, 100.0, 96.0)
            .with(Quantity::StartReach, reach(&row.start_marker))
            .with(Quantity::EndReach, reach(&row.end_marker));
        if !holds(&row.when, &m) {
            continue;
        }
        let a = place(&row.from, &m);
        let b = place(&row.to, &m);
        let (dx, dy) = (b.0 - a.0, b.1 - a.1);
        let length = (dx * dx + dy * dy).sqrt();
        let along = (dx / length, dy / length);
        let mut off = (0.0, 0.0);
        if holds(&row.trims_start(), &m) {
            off.0 = value(&row.clip_start, &m) * 96.0 / 72.0;
        }
        if holds(&row.trims_end(), &m) {
            off.1 = value(&row.clip_end, &m) * 96.0 / 72.0;
        }
        let points = if off.0 + off.1 < length {
            vec![
                (a.0 + off.0 * along.0, a.1 + off.0 * along.1),
                (b.0 - off.1 * along.0, b.1 - off.1 * along.1),
            ]
        } else {
            vec![]
        };
        for op in row.ops(points.len()) {
            match op {
                SegmentOp::StartMarker => {
                    let back = (-along.0, -along.1);
                    out.extend(draw_marker(&row.start_marker, points[0], back, &m));
                }
                SegmentOp::Stroke | SegmentOp::Pattern => out.push(Drawn::Stroke {
                    points: points.clone(),
                    width: value(&row.pen.width, &m),
                    dashes: row.pen.pattern.is_some(),
                    pick: row.pick,
                }),
                SegmentOp::EndMarker => {
                    out.extend(draw_marker(&row.end_marker, points[1], along, &m));
                }
            }
        }
    }
    out
}

fn paint(g: &SegmentGeom) -> Vec<Drawn> {
    paint_with(g, &ScaleOutputs::new())
}

fn segment(channels: Vec<(&str, Channel)>) -> SegmentGeom {
    built(SegmentGeom::build_from(builder_of(channels)))
}

fn count_strokes(drawn: &[Drawn]) -> usize {
    drawn.iter().filter(|d| matches!(d, Drawn::Stroke { .. })).count()
}

fn count_markers(drawn: &[Drawn]) -> usize {
    drawn.iter().filter(|d| matches!(d, Drawn::Marker { .. })).count()
}

/// The ends of the first stroke.
fn stroke_ends(drawn: &[Drawn]) -> Option<((f64, f64), (f64, f64))> {
    drawn.iter().find_map(|d| match d {
        Drawn::Stroke { points, .. } => Some((points[0], points[points.len() - 1])),
        _ => None,
    })
}

/// The markers after the first stroke.
fn markers_after(drawn: &[Drawn]) -> Vec<Drawn> {
    drawn
        .iter()
        .skip_while(|d| !matches!(d, Drawn::Stroke { .. }))
        .filter(|d| matches!(d, Drawn::Marker { .. }))
        .cloned()
        .collect()
}

/// The markers before the first stroke.
fn markers_before(drawn: &[Drawn]) -> Vec<Drawn> {
    drawn.iter().take_while(|d| matches!(d, Drawn::Marker { .. })).cloned().collect()
}

/// The colour of the first marker.
fn first_fill(drawn: &[Drawn]) -> Option<Color> {
    drawn.iter().find_map(|d| match d {
        Drawn::Marker { fill, .. } => Some(*fill),
        _ => None,
    })
}

/// A level segment from (0, 50) to (100, 50), two points wide.
fn level(more: Vec<(&str, Channel)>) -> SegmentGeom {
    let mut channels = vec![
        ("x", raw_numbers(&[0.0])),
        ("y", raw_numbers(&[0.5])),
        ("x2", raw_numbers(&[1.0])),
        ("y2", raw_numbers(&[0.5])),
        ("stroke", ink(red())),
        ("linewidth", number(2.0)),
    ];
    channels.extend(more);
    segment(channels)
}

#[test]
fn builder_requires_all_four_positions() {
    let r = SegmentGeom::build_from(builder_of(vec![
        ("x", numbers(&[0.0])),
        ("y", numbers(&[0.0])),
        ("x2", numbers(&[1.0])),
    ]));
    assert!(r.is_err());
}

#[test]
#[should_panic(expected = "must be data, not constant")]
fn builder_x_constant_panics() {
    segment(vec![
        ("x", number(0.0)),
        ("y", numbers(&[0.0])),
        ("x2", numbers(&[1.0])),
        ("y2", numbers(&[1.0])),
    ]);
}

#[test]
#[should_panic(expected = "does not match")]
fn builder_length_mismatch_panics() {
    segment(vec![
        ("x", numbers(&[0.0, 1.0])),
        ("y", numbers(&[0.0, 1.0])),
        ("x2", numbers(&[0.5])),
        ("y2", numbers(&[0.5])),
    ]);
}

#[test]
fn a_segment_takes_no_unknown_channel() {
    let r = SegmentGeom::build_from(builder_of(vec![
        ("x", numbers(&[0.0])),
        ("y", numbers(&[0.0])),
        ("x2", numbers(&[1.0])),
        ("y2", numbers(&[1.0])),
        ("colour", number(1.0)),
    ]));
    let message = r.map(|_| ()).unwrap_err().message("");
    assert!(message.contains("unknown channel \"colour\""), "{}", message);
}

#[test]
fn draws_one_stroke_per_row() {
    let g = segment(vec![
        ("x", numbers(&[0.1, 0.2, 0.3])),
        ("y", numbers(&[0.1, 0.2, 0.3])),
        ("x2", numbers(&[0.9, 0.8, 0.7])),
        ("y2", numbers(&[0.9, 0.8, 0.7])),
        ("stroke", ink(red())),
    ]);
    assert_eq!(count_strokes(&paint(&g)), 3);
}

#[test]
fn endpoint_positions_match_data() {
    let g = segment(vec![
        ("x", numbers(&[0.2])),
        ("y", numbers(&[0.0])),
        ("x2", numbers(&[0.8])),
        ("y2", numbers(&[1.0])),
        ("stroke", ink(red())),
    ]);
    let (start, end) = stroke_ends(&paint(&g)).expect("stroke");
    // A fraction of the height counts from below.
    assert!(near(start.0, 20.0), "start.x = {}", start.0);
    assert!(near(start.1, 100.0), "start.y = {}", start.1);
    assert!(near(end.0, 80.0), "end.x = {}", end.0);
    assert!(near(end.1, 0.0), "end.y = {}", end.1);
}

#[test]
fn no_stroke_emits_nothing() {
    let g = segment(vec![
        ("x", numbers(&[0.1])),
        ("y", numbers(&[0.1])),
        ("x2", numbers(&[0.5])),
        ("y2", numbers(&[0.5])),
    ]);
    assert!(paint(&g).is_empty());
}

#[test]
fn segment_nonfinite_position_skips_row() {
    let g = segment(vec![
        ("x", numbers(&[0.1, f64::NAN])),
        ("y", numbers(&[0.1, 0.1])),
        ("x2", numbers(&[0.5, 0.5])),
        ("y2", numbers(&[0.5, 0.5])),
        ("stroke", ink(red())),
    ]);
    assert_eq!(count_strokes(&paint(&g)), 1);
}

#[test]
fn band_offsets_per_endpoint_on_discrete_x() {
    // Two bands, A and B: each end sits at the centre of its own.
    let g = segment(vec![
        ("x", words(&["A"])),
        ("x2", words(&["B"])),
        ("y", numbers(&[0.5])),
        ("y2", numbers(&[0.5])),
        ("stroke", ink(red())),
    ]);
    let mut scales = ScaleOutputs::new();
    scales.bind_positions("x".to_string(), bands(&[(0.25, 0.5)]));
    scales.bind_positions("x2".to_string(), bands(&[(0.75, 0.5)]));
    let (start, end) = stroke_ends(&paint_with(&g, &scales)).expect("stroke");
    assert!(near(start.0, 25.0));
    assert!(near(end.0, 75.0));
}

#[test]
fn band_channels_move_each_end_within_its_band() {
    let g = segment(vec![
        ("x", words(&["A"])),
        ("x2", words(&["B"])),
        ("y", numbers(&[0.5])),
        ("y2", numbers(&[0.5])),
        ("x_band", number(0.4)),
        ("x2_band", number(-0.2)),
        ("stroke", ink(red())),
    ]);
    let mut scales = ScaleOutputs::new();
    scales.bind_positions("x".to_string(), bands(&[(0.25, 0.5)]));
    scales.bind_positions("x2".to_string(), bands(&[(0.75, 0.5)]));
    let (start, end) = stroke_ends(&paint_with(&g, &scales)).expect("stroke");
    assert!(near(start.0, 45.0), "start.x = {}", start.0);
    assert!(near(end.0, 65.0), "end.x = {}", end.0);
}

#[test]
fn x_offset_translates_start_in_pt() {
    let g = segment(vec![
        ("x", numbers(&[0.2])),
        ("y", numbers(&[0.5])),
        ("x2", numbers(&[0.8])),
        ("y2", numbers(&[0.5])),
        ("stroke", ink(red())),
        ("x_offset", number(9.0)),
    ]);
    let (start, end) = stroke_ends(&paint(&g)).expect("stroke");
    // Nine points are twelve pixels.
    assert!(near(start.0, 32.0), "start.x = {}", start.0);
    assert!(near(end.0, 80.0), "end.x = {}", end.0);
}

#[test]
fn y_offsets_go_up() {
    let g = segment(vec![
        ("x", numbers(&[0.2])),
        ("y", numbers(&[0.5])),
        ("x2", numbers(&[0.8])),
        ("y2", numbers(&[0.5])),
        ("stroke", ink(red())),
        ("y_offset", number(9.0)),
        ("y2_offset", number(-9.0)),
    ]);
    let (start, end) = stroke_ends(&paint(&g)).expect("stroke");
    assert!(near(start.1, 38.0), "start.y = {}", start.1);
    assert!(near(end.1, 62.0), "end.y = {}", end.1);
}

#[test]
fn segment_linetype_dashes_stroke() {
    let g = segment(vec![
        ("x", numbers(&[0.1])),
        ("y", numbers(&[0.5])),
        ("x2", numbers(&[0.9])),
        ("y2", numbers(&[0.5])),
        ("stroke", ink(red())),
        ("linetype", dashed()),
    ]);
    assert!(paint(&g).iter().any(|d| matches!(d, Drawn::Stroke { dashes: true, .. })));
}

#[test]
fn a_pattern_with_markers_is_walked() {
    let marked = Channel::Constant(Value::Linetype(Arc::new(vec![
        LinetypeStep::Dash(num(4.0)),
        LinetypeStep::Marker(2),
    ])));
    let rows = level(vec![("linetype", marked)]).draw(
        &ScaleOutputs::new(),
        &theme(),
        &Projection::cartesian(),
    );
    assert_eq!(rows[0].ops(2), vec![SegmentOp::Pattern]);
    assert_eq!(rows[0].ops(1), vec![]);
    let rows = level(vec![("linetype", dashed())]).draw(
        &ScaleOutputs::new(),
        &theme(),
        &Projection::cartesian(),
    );
    assert_eq!(rows[0].ops(2), vec![SegmentOp::Stroke]);
}

#[test]
fn linewidth_pt_to_px() {
    let g = segment(vec![
        ("x", numbers(&[0.1])),
        ("y", numbers(&[0.5])),
        ("x2", numbers(&[0.9])),
        ("y2", numbers(&[0.5])),
        ("stroke", ink(red())),
        ("linewidth", number(2.0)),
    ]);
    let widths: Vec<f64> = paint(&g)
        .iter()
        .filter_map(|d| match d {
            Drawn::Stroke { width, .. } => Some(*width),
            _ => None,
        })
        .collect();
    assert_eq!(widths.len(), 1);
    assert!((widths[0] - 2.0 * 96.0 / 72.0).abs() < 1e-9);
}

#[test]
fn a_line_without_width_is_not_drawn() {
    assert_eq!(count_strokes(&paint(&level(vec![("linewidth", number(0.0))]))), 0);
    assert_eq!(count_strokes(&paint(&level(vec![("linewidth", number(-1.0))]))), 0);
    assert_eq!(count_strokes(&paint(&level(vec![("linewidth", number(f64::INFINITY))]))), 0);
}

#[test]
fn segment_declared_channels_alphabetical() {
    let g = segment(vec![
        ("x", numbers(&[0.0])),
        ("y", numbers(&[0.0])),
        ("x2", numbers(&[1.0])),
        ("y2", numbers(&[1.0])),
        ("stroke", ink(red())),
    ]);
    let names = names_of(g.declared_channels());
    let mut sorted = names.clone();
    sorted.sort();
    assert_eq!(names, sorted);
    assert!(!names.contains(&"corner_radius"));
}

#[test]
fn segment_pick_id_channel_passes_through_per_row() {
    let g = segment(vec![
        ("x", numbers(&[0.1, 0.2, 0.3])),
        ("y", numbers(&[0.1, 0.2, 0.3])),
        ("x2", numbers(&[0.9, 0.8, 0.7])),
        ("y2", numbers(&[0.9, 0.8, 0.7])),
        ("stroke", ink(red())),
        ("pick_id", numbers(&[11.0, 22.0, 33.0])),
    ]);
    let picks: Vec<u32> = paint(&g)
        .iter()
        .filter_map(|d| match d {
            Drawn::Stroke { pick: PickId::Id(n), .. } => Some(*n),
            _ => None,
        })
        .collect();
    assert_eq!(picks, vec![11, 22, 33]);
}

#[test]
fn bounding_box_matches_endpoints() {
    let g = segment(vec![
        ("x", numbers(&[0.2])),
        ("y", numbers(&[0.3])),
        ("x2", numbers(&[0.7])),
        ("y2", numbers(&[0.6])),
        ("stroke", ink(red())),
    ]);
    let (start, end) = stroke_ends(&paint(&g)).expect("stroke");
    assert!(near(start.0.min(end.0), 20.0));
    assert!(near(start.0.max(end.0), 70.0));
}

#[test]
fn clip_start_radius_trims_segment_start() {
    let g = segment(vec![
        ("x", raw_numbers(&[0.0])),
        ("y", raw_numbers(&[0.5])),
        ("x2", raw_numbers(&[1.0])),
        ("y2", raw_numbers(&[0.5])),
        ("stroke", ink(red())),
        ("clip_start_radius", number(15.0)),
    ]);
    let (start, _) = stroke_ends(&paint(&g)).expect("stroke");
    let expected = 15.0 * 96.0 / 72.0;
    assert!(near(start.0, expected), "start.x = {}", start.0);
}

#[test]
fn clip_end_radius_trims_segment_end() {
    let g = segment(vec![
        ("x", raw_numbers(&[0.0])),
        ("y", raw_numbers(&[0.5])),
        ("x2", raw_numbers(&[1.0])),
        ("y2", raw_numbers(&[0.5])),
        ("stroke", ink(red())),
        ("clip_end_radius", number(15.0)),
    ]);
    let (_, end) = stroke_ends(&paint(&g)).expect("stroke");
    let expected = 100.0 - 15.0 * 96.0 / 72.0;
    assert!(near(end.0, expected), "end.x = {}", end.0);
}

#[test]
fn clip_radii_overlap_skips_segment() {
    let g = segment(vec![
        ("x", raw_numbers(&[0.0])),
        ("y", raw_numbers(&[0.5])),
        ("x2", raw_numbers(&[1.0])),
        ("y2", raw_numbers(&[0.5])),
        ("stroke", ink(red())),
        ("clip_start_radius", number(80.0)),
        ("clip_end_radius", number(80.0)),
    ]);
    assert_eq!(count_strokes(&paint(&g)), 0);
}

#[test]
fn endpoint_marker_unset_emits_no_extra_ops() {
    assert_eq!(count_markers(&paint(&level(vec![]))), 0);
}

#[test]
fn endpoint_unknown_marker_name_is_silent_no_op() {
    let g = level(vec![("end_marker", word("no-such-shape"))]);
    assert_eq!(count_markers(&paint(&g)), 0);
}

#[test]
fn a_marker_without_a_name_is_none() {
    let g = level(vec![
        ("end_marker", word("")),
        ("end_marker_size", number(f64::NAN)),
    ]);
    let drawn = paint(&g);
    assert_eq!(count_markers(&drawn), 0);
    let (_, end) = stroke_ends(&drawn).expect("stroke");
    assert!(near(end.0, 100.0));
}

#[test]
fn end_marker_anchor_lands_at_last_vertex() {
    let g = level(vec![
        ("end_marker", word("arrow-closed")),
        ("end_marker_size", number(10.0)),
    ]);
    let markers = markers_after(&paint(&g));
    assert!(!markers.is_empty());
    let anchor = markers[0].lands(-1.0, 0.0);
    let size_px = 10.0 * 96.0 / 72.0;
    assert!(near(anchor.0, 100.0 - size_px), "anchor.x = {}", anchor.0);
    assert!(near(anchor.1, 50.0), "anchor.y = {}", anchor.1);
}

#[test]
fn end_marker_tip_extends_outward() {
    let g = level(vec![
        ("end_marker", word("arrow-closed")),
        ("end_marker_size", number(10.0)),
    ]);
    let tip = markers_after(&paint(&g))[0].lands(0.0, 0.0);
    assert!(near(tip.0, 100.0), "tip.x = {}", tip.0);
    assert!(near(tip.1, 50.0), "tip.y = {}", tip.1);
}

#[test]
fn start_marker_anchor_lands_at_first_vertex_and_tip_points_back() {
    let g = level(vec![
        ("start_marker", word("arrow-closed")),
        ("start_marker_size", number(10.0)),
    ]);
    let markers = markers_before(&paint(&g));
    assert!(!markers.is_empty());
    let anchor = markers[0].lands(-1.0, 0.0);
    let size_px = 10.0 * 96.0 / 72.0;
    assert!(near(anchor.0, size_px), "anchor.x = {}", anchor.0);
    assert!(near(anchor.1, 50.0), "anchor.y = {}", anchor.1);
    let tip = markers[0].lands(0.0, 0.0);
    assert!(near(tip.0, 0.0), "tip.x = {}", tip.0);
}

/// The area that a square of the shape's own units covers.
fn scale_of(marker: &Drawn) -> f64 {
    let o = marker.lands(0.0, 0.0);
    let u = marker.lands(1.0, 0.0);
    let v = marker.lands(0.0, 1.0);
    ((u.0 - o.0) * (v.1 - o.1) - (u.1 - o.1) * (v.0 - o.0)).abs()
}

#[test]
fn marker_size_default_is_three_times_linewidth() {
    let g = level(vec![("end_marker", word("arrow-closed"))]);
    let expected_size = 6.0 * 96.0 / 72.0;
    let area = scale_of(&markers_after(&paint(&g))[0]);
    assert!(near(area, expected_size * expected_size), "area = {}", area);
}

#[test]
fn marker_size_override_takes_pt() {
    let g = level(vec![
        ("end_marker", word("arrow-closed")),
        ("end_marker_size", number(18.0)),
    ]);
    let expected_size = 18.0 * 96.0 / 72.0;
    let area = scale_of(&markers_after(&paint(&g))[0]);
    assert!(near(area, expected_size * expected_size));
}

#[test]
fn marker_respects_clip_start_radius() {
    let g = level(vec![
        ("start_marker", word("arrow-closed")),
        ("start_marker_size", number(10.0)),
        ("clip_start_radius", number(15.0)),
    ]);
    let marker = markers_before(&paint(&g))[0].clone();
    let user_clip_px = 15.0 * 96.0 / 72.0;
    let auto_clip_px = 10.0 * 96.0 / 72.0;
    let anchor = marker.lands(-1.0, 0.0);
    assert!(near(anchor.0, user_clip_px + auto_clip_px), "anchor.x = {}", anchor.0);
    let tip = marker.lands(0.0, 0.0);
    assert!(near(tip.0, user_clip_px), "tip.x = {}", tip.0);
}

#[test]
fn marker_fill_default_is_marker_fill_chain() {
    let g = level(vec![("end_marker", word("arrow-closed"))]);
    assert_eq!(first_fill(&paint(&g)).expect("fill"), red());

    let g = level(vec![("end_marker", word("arrow-closed")), ("fill", ink(blue()))]);
    assert_eq!(first_fill(&paint(&g)).expect("fill"), blue());

    let g = level(vec![
        ("end_marker", word("arrow-closed")),
        ("fill", ink(blue())),
        ("end_marker_fill", ink(green())),
    ]);
    assert_eq!(first_fill(&paint(&g)).expect("fill"), green());
}

#[test]
fn endpoint_fills_are_independently_controllable() {
    let orange = rgba(1.0, 0.5, 0.0, 1.0);
    let g = level(vec![
        ("start_marker", word("arrow-closed")),
        ("end_marker", word("arrow-closed")),
        ("start_marker_fill", ink(green())),
        ("end_marker_fill", ink(orange)),
    ]);
    let drawn = paint(&g);
    assert_eq!(first_fill(&markers_before(&drawn)), Some(green()));
    assert_eq!(first_fill(&markers_after(&drawn)), Some(orange));
}

#[test]
fn marker_invert_flips_rotation() {
    let g = level(vec![
        ("end_marker", word("arrow-closed")),
        ("end_marker_size", number(10.0)),
        ("end_marker_invert", flag(true)),
    ]);
    let tip = markers_after(&paint(&g))[0].lands(0.0, 0.0);
    let size_px = 10.0 * 96.0 / 72.0;
    assert!(near(tip.0, 100.0 - size_px), "tip.x = {}", tip.0);
}

#[test]
fn a_segment_turns_about_its_middle() {
    let rows = level(vec![("angle", number(std::f64::consts::FRAC_PI_2))]).draw(
        &ScaleOutputs::new(),
        &theme(),
        &Projection::cartesian(),
    );
    let m = Measures::panel(0.0, 0.0, 100.0, 100.0, 96.0);
    let from = turned(&rows[0].xform, place(&rows[0].from, &m), &m);
    let to = turned(&rows[0].xform, place(&rows[0].to, &m), &m);
    // A quarter turn against the clock takes the start down and the end up.
    assert!(near(from.0, 50.0) && near(from.1, 100.0), "from = {:?}", from);
    assert!(near(to.0, 50.0) && near(to.1, 0.0), "to = {:?}", to);
    let rows = level(vec![]).draw(&ScaleOutputs::new(), &theme(), &Projection::cartesian());
    assert!(matches!(rows[0].xform, Xform::Identity));
}

#[test]
fn a_segment_can_be_changed_and_counted() {
    let mut g = level(vec![]);
    assert_eq!(g.len(), 1);
    assert!(!g.is_empty());
    assert!(!g.has_explicit_keys());
    built(g.set("linewidth", number(4.0)));
    assert!(g.state.dirty);
    let drawn = paint(&g);
    assert!(matches!(drawn[0], Drawn::Stroke { width, .. } if near(width, 4.0 * 96.0 / 72.0)));
    let mut b = g.edit();
    b.set("linewidth", number(1.0));
    built(g.update(b));
    let drawn = paint(&g);
    assert!(matches!(drawn[0], Drawn::Stroke { width, .. } if near(width, 96.0 / 72.0)));
    assert!(g.set("linewidth", numbers(&[1.0, 2.0])).is_err());
}
