//! Projections: where fractions of the panel lie on the page, and how edges
//! bend.

use std::f64::consts::{FRAC_PI_2, PI, TAU};

use hephaestus::expr::{Cond, Expr, Quantity};
use hephaestus::num::Num;
use hephaestus::projection::{
    ChromeStrategy, EdgeFacts, Fractions, PolarEdgeStyle, PolarProjection, Projection, ThetaBreaks,
};
use hephaestus::scene::Point;

/// The number `x`.
fn num(x: f64) -> Num {
    Num::from_bits(x.to_bits())
}

/// The number as the machine holds it.
fn float(x: Num) -> f64 {
    f64::from_bits(x.bits)
}

/// What has been measured on the page.
#[derive(Clone)]
struct Measures {
    values: Vec<(Quantity, f64)>,
}

impl Measures {
    /// A panel, at this many dots per inch.
    fn panel(x0: f64, y0: f64, x1: f64, y1: f64, dpi: f64) -> Measures {
        Measures {
            values: vec![
                (Quantity::PanelX0, x0),
                (Quantity::PanelY0, y0),
                (Quantity::PanelX1, x1),
                (Quantity::PanelY1, y1),
                (Quantity::Dpi, dpi),
            ],
        }
    }

    /// The same, with one quantity more.
    fn with(&self, q: Quantity, x: f64) -> Measures {
        let mut values: Vec<(Quantity, f64)> =
            self.values.iter().filter(|(p, _)| *p != q).cloned().collect();
        values.push((q, x));
        Measures { values }
    }

    fn get(&self, q: Quantity) -> f64 {
        match self.values.iter().find(|(p, _)| *p == q) {
            Some((_, x)) => *x,
            None => panic!("{:?} was not measured", q),
        }
    }
}

/// What the expression comes to.
fn value(e: &Expr, m: &Measures) -> f64 {
    match e {
        Expr::Lit(n) => float(*n),
        Expr::Ratio(p, q) => *p as f64 / *q as f64,
        Expr::Var(q) => m.get(*q),
        Expr::Neg(a) => -value(a, m),
        Expr::Add(a, b) => value(a, m) + value(b, m),
        Expr::Sub(a, b) => value(a, m) - value(b, m),
        Expr::Mul(a, b) => value(a, m) * value(b, m),
        Expr::Div(a, b) => value(a, m) / value(b, m),
        Expr::Min(a, b) => value(a, m).min(value(b, m)),
        Expr::Max(a, b) => value(a, m).max(value(b, m)),
        Expr::Clamp(a, lo, hi) => value(a, m).clamp(value(lo, m), value(hi, m)),
        Expr::Abs(a) => value(a, m).abs(),
        Expr::Sin(a) => value(a, m).sin(),
        Expr::Cos(a) => value(a, m).cos(),
        Expr::Sqrt(a) => value(a, m).sqrt(),
        Expr::Atan2(y, x) => value(y, m).atan2(value(x, m)),
        Expr::Select(c, a, b) => {
            if holds(c, m) {
                value(a, m)
            } else {
                value(b, m)
            }
        }
    }
}

/// Whether the condition holds.
fn holds(c: &Cond, m: &Measures) -> bool {
    match c {
        Cond::Always => true,
        Cond::Finite(a) => value(a, m).is_finite(),
        Cond::Gt(a, b) => value(a, m) > value(b, m),
        Cond::Ge(a, b) => value(a, m) >= value(b, m),
        Cond::Eq(a, b) => value(a, m) == value(b, m),
        Cond::Not(a) => !holds(a, m),
        Cond::And(a, b) => holds(a, m) && holds(b, m),
        Cond::Or(a, b) => holds(a, m) || holds(b, m),
    }
}

/// Where the point is.
fn place(p: &Point, m: &Measures) -> (f64, f64) {
    (value(&p.x, m), value(&p.y, m))
}

/// Whether two numbers are the same but for rounding.
fn near(a: f64, b: f64) -> bool {
    (a - b).abs() < 1e-6
}

/// What the painter finds out about an edge.
fn edge_facts(p: &Projection, from: &Fractions, to: &Fractions, m: &Measures) -> EdgeFacts {
    let q = p.edge_questions(from, to);
    EdgeFacts { steps: value(&q.steps, m).ceil() as usize, rises: holds(&q.rises, m) }
}

/// A place, as fractions of the panel.
fn fractions(a: f64, b: f64) -> Fractions {
    Fractions { a: Expr::Lit(num(a)), b: Expr::Lit(num(b)) }
}

fn panel_400_300() -> Measures {
    Measures::panel(50.0, 30.0, 450.0, 330.0, 96.0)
}

fn square_panel() -> Measures {
    Measures::panel(0.0, 0.0, 400.0, 400.0, 96.0)
}

/// Where the projection takes these channels.
fn project(p: &Projection, panel: &Measures, channels: &[f64]) -> (f64, f64) {
    let channels: Vec<Expr> = channels.iter().map(|c| Expr::Lit(num(*c))).collect();
    place(&p.project_to_panel_px(&channels), panel)
}

/// The points between the ends of an edge.
fn between(p: &Projection, panel: &Measures, a: (f64, f64), b: (f64, f64)) -> Vec<(f64, f64)> {
    let (from, to) = (fractions(a.0, a.1), fractions(b.0, b.1));
    let mut out = vec![];
    p.interpolate_segment(&from, &to, edge_facts(p, &from, &to, panel), &mut out);
    out.iter().filter(|(c, _)| holds(c, panel)).map(|(_, at)| place(at, panel)).collect()
}

/// The same, each with how far along it lies.
fn between_with_t(
    p: &Projection,
    panel: &Measures,
    a: (f64, f64),
    b: (f64, f64),
) -> Vec<(f64, f64, f64)> {
    let (from, to) = (fractions(a.0, a.1), fractions(b.0, b.1));
    let mut out = vec![];
    p.interpolate_segment_with_t(&from, &to, edge_facts(p, &from, &to, panel), &mut out);
    out.iter()
        .filter(|s| holds(&s.when, panel))
        .map(|s| {
            (value(&s.sample.px, panel), value(&s.sample.py, panel), value(&s.sample.t, panel))
        })
        .collect()
}

fn approx(a: f64, b: f64, msg: &str) {
    assert!((a - b).abs() < 1e-9, "{}: {} is not {}", msg, a, b);
}

fn approx_pt(actual: (f64, f64), expected: (f64, f64), msg: &str) {
    assert!(
        (actual.0 - expected.0).abs() < 1e-9 && (actual.1 - expected.1).abs() < 1e-9,
        "{}: {:?} is not {:?}",
        msg,
        actual,
        expected
    );
}

fn polar_of(p: Projection) -> PolarProjection {
    match p {
        Projection::Polar(p) => p,
        Projection::Cartesian => panic!("expected a polar projection"),
    }
}

/// A polar projection whose edges are chords, without breaks.
fn chords_without_breaks() -> Projection {
    let mut p = PolarProjection::full_circle();
    p.edge_style = PolarEdgeStyle::Chord;
    p.theta_break_fracs = ThetaBreaks::At(vec![]);
    Projection::Polar(p)
}

#[test]
fn cartesian_is_default() {
    assert_eq!(Projection::default(), Projection::Cartesian);
}

#[test]
fn projections_are_copied_and_compared() {
    let mut spokes = polar_of(Projection::radar(5));
    spokes.theta_break_fracs = ThetaBreaks::At(vec![num(0.0), num(0.25)]);
    let all = [
        Projection::cartesian(),
        Projection::polar(),
        Projection::gauge(),
        Projection::radar(5),
        Projection::radar(6),
        Projection::Polar(spokes.clone()),
    ];
    for (i, a) in all.iter().enumerate() {
        for (j, b) in all.iter().enumerate() {
            assert_eq!(*a == b.clone(), i == j, "{:?} and {:?}", a, b);
        }
    }
    // Zero is zero, and what is undefined equals nothing.
    let mut other = spokes.clone();
    other.theta_break_fracs = ThetaBreaks::At(vec![num(-0.0), num(0.25)]);
    assert!(spokes == other);
    other.theta_start = num(f64::NAN);
    assert!(other != other.clone());
}

#[test]
fn cartesian_consume_channels() {
    assert_eq!(Projection::cartesian().consume_channels(), vec!["x", "y"]);
}

#[test]
fn cartesian_chrome_strategy_is_patch_slots() {
    assert_eq!(Projection::cartesian().chrome_strategy(), ChromeStrategy::PatchSlots);
}

#[test]
fn cartesian_origin_maps_to_bottom_left() {
    let (px, py) = project(&Projection::cartesian(), &panel_400_300(), &[0.0, 0.0]);
    approx(px, 50.0, "x");
    approx(py, 330.0, "y (bottom)");
}

#[test]
fn cartesian_corner_maps_to_top_right() {
    let (px, py) = project(&Projection::cartesian(), &panel_400_300(), &[1.0, 1.0]);
    approx(px, 450.0, "x");
    approx(py, 30.0, "y (top)");
}

#[test]
fn cartesian_centre_maps_to_panel_centre() {
    let (px, py) = project(&Projection::cartesian(), &panel_400_300(), &[0.5, 0.5]);
    approx(px, (50.0 + 450.0) * 0.5, "x");
    approx(py, (30.0 + 330.0) * 0.5, "y");
}

#[test]
fn cartesian_matches_legacy_inline_math() {
    let (panel_w, panel_h) = (450.0 - 50.0, 330.0 - 30.0);
    for x_frac in [-0.5, 0.0, 0.25, 0.5, 0.75, 1.0, 1.5] {
        for y_frac in [-0.5, 0.0, 0.5, 1.0, 1.5] {
            let (px, py) = project(&Projection::cartesian(), &panel_400_300(), &[x_frac, y_frac]);
            approx(px, 50.0 + x_frac * panel_w, "px");
            approx(py, 330.0 - y_frac * panel_h, "py");
        }
    }
}

#[test]
fn cartesian_short_slice_defaults_to_zero() {
    let (px, py) = project(&Projection::cartesian(), &panel_400_300(), &[]);
    approx(px, 50.0, "px");
    approx(py, 330.0, "py");
}

#[test]
fn cartesian_extra_channels_are_ignored() {
    let (px, py) =
        project(&Projection::cartesian(), &panel_400_300(), &[0.25, 0.5, 999.0, 999.0]);
    approx(px, 50.0 + 0.25 * 400.0, "px");
    approx(py, 330.0 - 0.5 * 300.0, "py");
}

#[test]
fn cartesian_is_linear() {
    assert!(Projection::cartesian().is_linear());
}

#[test]
fn cartesian_interpolate_segment_is_noop() {
    let p = Projection::cartesian();
    let (from, to) = (fractions(0.0, 0.0), fractions(1.0, 1.0));
    let kept = Point { x: Expr::Ratio(999, 1), y: Expr::Ratio(999, 1) };
    let mut out = vec![(Cond::Always, kept)];
    let facts = edge_facts(&p, &from, &to, &panel_400_300());
    p.interpolate_segment(&from, &to, facts, &mut out);
    assert_eq!(out.len(), 1);
    assert_eq!(place(&out[0].1, &panel_400_300()), (999.0, 999.0));
}

#[test]
fn polar_is_not_linear() {
    assert!(!Projection::polar().is_linear());
    assert!(!Projection::gauge().is_linear());
}

#[test]
fn polar_chrome_strategy_is_inside_panel() {
    assert_eq!(Projection::polar().chrome_strategy(), ChromeStrategy::InsidePanel);
    assert_eq!(Projection::gauge().chrome_strategy(), ChromeStrategy::InsidePanel);
}

#[test]
fn polar_default_consume_channels() {
    assert_eq!(Projection::polar().consume_channels(), vec!["x", "y"]);
}

#[test]
fn polar_channels_can_be_named() {
    let mut p = PolarProjection::full_circle();
    p.angle_channel = "theta".to_string();
    p.radius_channel = "rho".to_string();
    assert_eq!(Projection::Polar(p).consume_channels(), vec!["theta", "rho"]);
}

#[test]
fn polar_zero_radius_maps_to_panel_centre() {
    for theta_frac in [0.0, 0.1, 0.25, 0.5, 0.75, 1.0] {
        let pt = project(&Projection::polar(), &square_panel(), &[theta_frac, 0.0]);
        approx_pt(pt, (200.0, 200.0), "centre");
    }
}

#[test]
fn polar_default_full_radius_at_zero_theta_is_top() {
    let pt = project(&Projection::polar(), &square_panel(), &[0.0, 1.0]);
    approx_pt(pt, (200.0, 0.0), "12 o'clock top");
}

#[test]
fn polar_default_clockwise_sweep_at_quarters() {
    let p = Projection::polar();
    approx_pt(project(&p, &square_panel(), &[0.25, 1.0]), (400.0, 200.0), "3 o'clock");
    approx_pt(project(&p, &square_panel(), &[0.5, 1.0]), (200.0, 400.0), "6 o'clock");
    approx_pt(project(&p, &square_panel(), &[0.75, 1.0]), (0.0, 200.0), "9 o'clock");
}

#[test]
fn polar_non_square_panel_uses_inscribed_square() {
    let panel = Measures::panel(0.0, 0.0, 600.0, 300.0, 96.0);
    let p = Projection::polar();
    approx_pt(project(&p, &panel, &[0.0, 1.0]), (300.0, 0.0), "12 o'clock on wide panel");
    approx_pt(project(&p, &panel, &[0.25, 1.0]), (450.0, 150.0), "3 o'clock on wide panel");
}

#[test]
fn polar_inner_radius_frac_offsets_origin() {
    let p = Projection::gauge();
    let pt = project(&p, &square_panel(), &[0.0, 0.0]);
    approx_pt(pt, (120.0, 300.0), "gauge inner @ 9 o'clock");
    let pt = project(&p, &square_panel(), &[0.0, 1.0]);
    approx_pt(pt, (0.0, 300.0), "gauge outer @ 9 o'clock");
}

#[test]
fn polar_gauge_partial_arc_endpoints() {
    let p = Projection::gauge();
    approx_pt(project(&p, &square_panel(), &[0.0, 1.0]), (0.0, 300.0), "gauge start");
    approx_pt(project(&p, &square_panel(), &[1.0, 1.0]), (400.0, 300.0), "gauge end");
    approx_pt(project(&p, &square_panel(), &[0.5, 1.0]), (200.0, 100.0), "gauge middle");
}

/// The corners of the box round what the projection covers.
fn box_units(p: &PolarProjection) -> ((f64, f64), (f64, f64)) {
    let e = p.bounding_box_units();
    let m = square_panel();
    (
        (value(&e.min_x, &m), value(&e.min_y, &m)),
        (value(&e.max_x, &m), value(&e.max_y, &m)),
    )
}

#[test]
fn polar_full_circle_bounding_box_is_unit_square() {
    let (min, max) = box_units(&PolarProjection::full_circle());
    approx_pt(min, (-1.0, -1.0), "full-circle min");
    approx_pt(max, (1.0, 1.0), "full-circle max");
}

#[test]
fn polar_gauge_bounding_box_is_top_half() {
    let (min, max) = box_units(&PolarProjection::gauge());
    approx_pt(min, (-1.0, 0.0), "gauge min");
    approx_pt(max, (1.0, 1.0), "gauge max");
}

#[test]
fn polar_quarter_pie_bounding_box() {
    let mut pie = PolarProjection::full_circle();
    pie.theta_start = num(0.0);
    pie.theta_end = num(FRAC_PI_2);
    let (min, max) = box_units(&pie);
    approx_pt(min, (0.0, 0.0), "quarter-pie min");
    approx_pt(max, (1.0, 1.0), "quarter-pie max");
}

#[test]
fn a_radar_is_as_large_as_its_polygon() {
    let h = 0.5_f64.sqrt();
    let (min, max) = box_units(&PolarProjection::radar(4));
    approx_pt(min, (-h, -h), "radar min");
    approx_pt(max, (h, h), "radar max");

    // The ends of the sweep count on part of a circle.
    let mut part = PolarProjection::radar(4);
    part.theta_start = num(PI);
    part.theta_end = num(0.0);
    let (min, max) = box_units(&part);
    let corner = (PI / 8.0 * 3.0).sin();
    approx_pt(min, (-1.0, 0.0), "half radar min");
    approx_pt(max, (1.0, corner), "half radar max");
}

#[test]
fn whole_turns_do_not_matter_to_a_sweep() {
    // A sweep without length, one turn away from the rightmost point.
    for turns in [-2.0, -1.0, 0.0, 1.0, 2.0] {
        let mut ray = PolarProjection::full_circle();
        ray.theta_start = num(turns * TAU);
        ray.theta_end = num(turns * TAU);
        let (min, max) = box_units(&ray);
        approx_pt(min, (0.0, 0.0), "ray min");
        approx_pt(max, (1.0, 0.0), "ray max");
        // The quarter that begins there reaches its far end.
        ray.theta_end = num(turns * TAU + FRAC_PI_2);
        let (min, max) = box_units(&ray);
        approx_pt(min, (0.0, 0.0), "quarter min");
        approx_pt(max, (1.0, 1.0), "quarter max");
    }
}

#[test]
fn polar_gauge_uses_full_panel_width_on_tall_panel() {
    let panel = Measures::panel(0.0, 0.0, 200.0, 400.0, 96.0);
    let p = Projection::gauge();
    approx_pt(project(&p, &panel, &[0.0, 1.0]), (0.0, 250.0), "gauge 9 o'clock");
    approx_pt(project(&p, &panel, &[1.0, 1.0]), (200.0, 250.0), "gauge 3 o'clock");
}

#[test]
fn polar_interpolate_segment_radial_line_emits_nothing() {
    let out = between(&Projection::polar(), &square_panel(), (0.25, 0.0), (0.25, 1.0));
    assert!(out.is_empty(), "expected no interior points: {:?}", out);
}

#[test]
fn polar_interpolate_segment_arc_emits_samples() {
    let out = between(&Projection::polar(), &square_panel(), (0.0, 1.0), (0.25, 1.0));
    assert!(out.len() >= 5, "expected at least 5 interior samples, got {}", out.len());
    assert!(out.len() < 20, "too many samples: {}", out.len());
    for (px, py) in &out {
        let d = ((px - 200.0).powi(2) + (py - 200.0).powi(2)).sqrt();
        assert!((d - 200.0).abs() < 2.0, "{:?} not on circle (d = {})", (px, py), d);
    }
}

#[test]
fn cartesian_interpolate_segment_with_t_is_noop() {
    let out = between_with_t(&Projection::cartesian(), &panel_400_300(), (0.0, 0.0), (1.0, 1.0));
    assert!(out.is_empty());
}

#[test]
fn polar_interpolate_segment_with_t_yields_evenly_spaced_t() {
    let p = Projection::polar();
    let out = between_with_t(&p, &square_panel(), (0.0, 1.0), (0.25, 1.0));
    assert!(!out.is_empty());
    assert!(out[0].2 > 0.0);
    assert!(out[out.len() - 1].2 < 1.0);
    for w in out.windows(2) {
        assert!(w[1].2 > w[0].2, "t not monotonic: {:?}", out);
    }
    let polar = polar_of(p);
    for s in &out {
        let theta_frac = Expr::Lit(num(s.2 * 0.25));
        let at = polar.project_frac(&theta_frac, &Expr::Ratio(1, 1));
        approx_pt((s.0, s.1), place(&at, &square_panel()), "sample position");
    }
}

#[test]
fn polar_interpolate_segment_and_with_t_agree_on_positions() {
    let p = Projection::polar();
    let a = between(&p, &square_panel(), (0.0, 1.0), (0.25, 1.0));
    let b = between_with_t(&p, &square_panel(), (0.0, 1.0), (0.25, 1.0));
    assert_eq!(a.len(), b.len());
    for (p, q) in a.iter().zip(b.iter()) {
        approx_pt(*p, (q.0, q.1), "agree");
    }
}

#[test]
fn radar_is_still_non_linear() {
    assert!(!Projection::radar(6).is_linear());
}

#[test]
fn radar_interpolate_segment_emits_one_sample_per_break_crossing() {
    let out = between_with_t(&Projection::radar(6), &square_panel(), (0.05, 0.5), (0.45, 0.5));
    assert_eq!(out.len(), 3, "expected 3 break crossings: {:?}", out);
    let span = 0.45 - 0.05;
    assert!((out[0].2 - (1.0 / 12.0 - 0.05) / span).abs() < 1e-9);
    assert!((out[1].2 - (3.0 / 12.0 - 0.05) / span).abs() < 1e-9);
    assert!((out[2].2 - (5.0 / 12.0 - 0.05) / span).abs() < 1e-9);
}

#[test]
fn radar_breaks_are_crossed_in_the_edge_s_own_order() {
    let out = between_with_t(&Projection::radar(6), &square_panel(), (0.45, 0.5), (0.05, 0.5));
    assert_eq!(out.len(), 3);
    for w in out.windows(2) {
        assert!(w[1].2 > w[0].2, "{:?}", out);
    }
}

#[test]
fn breaks_in_any_order_are_crossed_in_order() {
    let mut p = PolarProjection::radar(4);
    p.theta_break_fracs = ThetaBreaks::At(vec![num(0.7), num(0.1), num(0.45), num(0.2)]);
    let p = Projection::Polar(p);
    for (a, b, crossed) in [
        (0.05, 0.6, vec![0.1, 0.2, 0.45]),
        (0.9, 0.15, vec![0.7, 0.45, 0.2]),
        (0.2, 0.7, vec![0.45]),
        (0.3, 0.3, vec![]),
    ] {
        let out = between_with_t(&p, &square_panel(), (a, 0.2), (b, 0.8));
        assert_eq!(out.len(), crossed.len(), "{} {}", a, b);
        for (s, f) in out.iter().zip(&crossed) {
            let t = (f - a) / (b - a);
            assert!((s.2 - t).abs() < 1e-9);
            let at = project(&p, &square_panel(), &[*f, 0.2 + t * 0.6]);
            approx_pt((s.0, s.1), at, "a bend");
        }
    }
}

#[test]
fn radar_segment_inside_one_break_span_emits_nothing() {
    let out = between(&Projection::radar(6), &square_panel(), (0.10, 0.3), (0.20, 0.7));
    assert!(out.is_empty(), "expected no break crossings: {:?}", out);
}

#[test]
fn radar_segment_with_no_configured_breaks_emits_nothing() {
    let out = between(&chords_without_breaks(), &square_panel(), (0.0, 1.0), (0.5, 1.0));
    assert!(out.is_empty());
}

#[test]
fn radar_point_projection_matches_polar_at_same_angle_and_radius() {
    let (polar, radar) = (Projection::polar(), chords_without_breaks());
    for (theta_frac, r_frac) in [(0.0, 1.0), (0.25, 1.0), (0.5, 0.5), (0.75, 0.0)] {
        let a = project(&polar, &square_panel(), &[theta_frac, r_frac]);
        let b = project(&radar, &square_panel(), &[theta_frac, r_frac]);
        approx_pt(a, b, "polar vs radar");
    }
}

#[test]
fn radar_chrome_strategy_is_inside_panel() {
    assert_eq!(Projection::radar(6).chrome_strategy(), ChromeStrategy::InsidePanel);
}

#[test]
fn radar_default_has_n_band_centre_break_fracs() {
    let p = polar_of(Projection::radar(6));
    assert_eq!(p.theta_break_fracs.len(), 6);
    for (i, frac) in p.theta_break_fracs.fracs().iter().enumerate() {
        assert!((value(frac, &square_panel()) - (i as f64 + 0.5) / 6.0).abs() < 1e-9);
    }
}

#[test]
fn polar_interpolate_segment_smaller_radius_needs_fewer_samples() {
    let p = Projection::polar();
    let small_r = between(&p, &square_panel(), (0.0, 0.1), (0.25, 0.1));
    let large_r = between(&p, &square_panel(), (0.0, 1.0), (0.25, 1.0));
    assert!(small_r.len() < large_r.len(), "{} and {}", small_r.len(), large_r.len());
}

#[test]
fn breaks_are_sorted_and_can_be_closed() {
    let breaks = ThetaBreaks::At([0.75, 0.25, 0.5].map(num).to_vec());
    let m = square_panel();
    let sorted: Vec<f64> = breaks.sorted_fracs().iter().map(|e| value(e, &m)).collect();
    assert_eq!(sorted, vec![0.25, 0.5, 0.75]);
    let closed: Vec<f64> =
        breaks.sorted_fracs_with_ends().iter().map(|e| value(e, &m)).collect();
    assert_eq!(closed, vec![0.0, 0.25, 0.5, 0.75, 1.0]);
}

#[test]
fn a_circle_is_whole_and_a_gauge_is_not() {
    let m = square_panel();
    assert!(holds(&PolarProjection::full_circle().is_full_circle(), &m));
    assert!(!holds(&PolarProjection::gauge().is_full_circle(), &m));
    assert!(Projection::polar().as_polar().is_some());
    assert!(Projection::cartesian().as_polar().is_none());
}

#[test]
fn angles_run_from_start_to_end() {
    let m = square_panel();
    let gauge = PolarProjection::gauge();
    assert!(near(value(&gauge.theta_for_frac(Expr::Ratio(0, 1)), &m), PI));
    assert!(near(value(&gauge.theta_for_frac(Expr::Ratio(1, 4)), &m), 0.75 * PI));
    assert!(near(value(&gauge.theta_for_frac(Expr::Ratio(1, 1)), &m), 0.0));
    let up = gauge.unit_position(&Expr::Ratio(1, 2));
    assert!(near(value(&up.x, &m), 0.0) && near(value(&up.y, &m).abs(), 1.0));
}

#[test]
fn rings_can_be_nested() {
    let mut inner = PolarProjection::full_circle();
    inner.outer_radius_frac = Some(num(0.5));
    let mut outer = PolarProjection::full_circle();
    outer.inner_radius_frac = num(0.5);
    let m = square_panel();
    let (a, b) = (inner.geometry(), outer.geometry());
    assert!(near(value(&a.r_outer, &m), 100.0) && near(value(&a.r_inner, &m), 0.0));
    assert!(near(value(&b.r_outer, &m), 200.0) && near(value(&b.r_inner, &m), 100.0));
    assert!(near(value(&a.cx, &m), 200.0) && near(value(&a.cy, &m), 200.0));
}

#[test]
fn an_arc_that_is_not_fitted_keeps_the_disk_in_the_middle() {
    let mut p = PolarProjection::gauge();
    p.fit_to_bbox = false;
    let m = square_panel();
    let g = p.geometry();
    assert!(near(value(&g.cx, &m), 200.0) && near(value(&g.cy, &m), 200.0));
    assert!(near(value(&g.r_outer, &m), 200.0) && near(value(&g.r_inner, &m), 80.0));
}

#[test]
fn a_radar_runs_along_its_polygon() {
    // Four categories: the corners lie on the diagonals, and half-way between
    // two of them the edge is nearer to the centre.
    let p = Projection::radar(4);
    let corner = project(&p, &square_panel(), &[0.125, 1.0]);
    let middle = project(&p, &square_panel(), &[0.25, 1.0]);
    let r = |at: (f64, f64)| ((at.0 - 200.0).powi(2) + (at.1 - 200.0).powi(2)).sqrt();
    assert!(r(middle) < r(corner), "{:?} {:?}", corner, middle);
}
