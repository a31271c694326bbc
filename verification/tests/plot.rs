//! Plots: what they hold, what they ask of the layout, and what they draw.

use std::sync::Arc;

use hephaestus::channel::Channel;
use hephaestus::expr::{Cond, Expr, Quantity};
use hephaestus::geom::builder::GeomBuilder;
use hephaestus::geom::error::BuildError;
use hephaestus::geom::segment::SegmentGeom;
use hephaestus::geom::wedge::WedgeGeom;
use hephaestus::image_registry::{Image, ImageAlphaType, ImageFormat, ImageRegistry};
use hephaestus::names::NameMap;
use hephaestus::num::Num;
use hephaestus::pick::PickId;
use hephaestus::plot::{Plot, ShapeRegistry, ThemePart};
use hephaestus::plot::any_geom::AnyGeom;
use hephaestus::plot::aspect::{AspectMode, Scale, ScaleRange, ScaleRegistry, expand_within_domain};
use hephaestus::plot::chrome::{
    AlignTo, Anchor, Axis, AxisPlacement, GridPlace, Legend, LegendSide, PolarRing, axis_side_index,
    cartesian_axis_slot, cartesian_axis_title_slot, insets_agree, legends_grouped_by_side,
    legends_grouped_in_panel, strip_side, strip_slot, title_band_placement,
};
use hephaestus::plot::draw::{ChromeOp, GeomOp, PlotBackground};
use hephaestus::plot::error::{PlotError, ProjectionKind};
use hephaestus::plot::layout::{Composition, Layout, SlotRect};
use hephaestus::plot::wire::{
    AxisBreak, AxisTitleTheme, BleedLabelKind, LabelSize, PlotTheme, StripRoom, WireOp, label_max,
};
use hephaestus::projection::Projection;
use hephaestus::resolve::ScaleOutputs;
use hephaestus::scene::{Op, Path, Point, Rect};
use hephaestus::slot::{AxisSide, Slot};
use hephaestus::value::{Color, DataColumn, Value};

/// The number `x`.
fn num(x: f64) -> Num {
    Num::from_bits(x.to_bits())
}

/// The number as the machine holds it.
fn float(x: Num) -> f64 {
    f64::from_bits(x.bits)
}

/// A column of numbers, mapped by the channel's scale.
fn numbers(xs: &[f64]) -> Channel {
    Channel::Data(DataColumn::F64(Arc::new(xs.iter().map(|x| num(*x)).collect())))
}

/// One number for every row.
fn number(x: f64) -> Channel {
    Channel::Constant(Value::Number(num(x)))
}

/// A colour by its parts.
fn rgba(r: f32, g: f32, b: f32, a: f32) -> Color {
    Color { r: r.to_bits(), g: g.to_bits(), b: b.to_bits(), a: a.to_bits() }
}

fn red() -> Color {
    rgba(1.0, 0.0, 0.0, 1.0)
}

fn blue() -> Color {
    rgba(0.0, 0.0, 1.0, 1.0)
}

/// One colour for every row.
fn ink(c: Color) -> Channel {
    Channel::Constant(Value::Color(c))
}

/// A builder that holds these channels.
fn builder_of(channels: Vec<(&str, Channel)>) -> GeomBuilder {
    let mut b = GeomBuilder::new();
    for (name, channel) in channels {
        b.set(name, channel);
    }
    b
}

/// The geom, or a panic with the reason why there is none.
fn built<T>(r: Result<T, BuildError>) -> T {
    match r {
        Ok(g) => g,
        Err(e) => panic!("{}", e.message("?")),
    }
}

/// What has been measured on the page.
#[derive(Clone)]
struct Measures {
    values: Vec<(Quantity, f64)>,
}

impl Measures {
    /// A panel, at this many dots per inch.
    fn panel(x0: f64, y0: f64, x1: f64, y1: f64, dpi: f64) -> Measures {
        Measures {
            values: vec![
                (Quantity::PanelX0, x0),
                (Quantity::PanelY0, y0),
                (Quantity::PanelX1, x1),
                (Quantity::PanelY1, y1),
                (Quantity::Dpi, dpi),
            ],
        }
    }

    /// The same, with one quantity more.
    fn with(&self, q: Quantity, x: f64) -> Measures {
        let mut values: Vec<(Quantity, f64)> =
            self.values.iter().filter(|(p, _)| *p != q).cloned().collect();
        values.push((q, x));
        Measures { values }
    }

    fn get(&self, q: Quantity) -> f64 {
        match self.values.iter().find(|(p, _)| *p == q) {
            Some((_, x)) => *x,
            None => panic!("{:?} was not measured", q),
        }
    }
}

/// What the expression comes to.
fn value(e: &Expr, m: &Measures) -> f64 {
    match e {
        Expr::Lit(n) => float(*n),
        Expr::Ratio(p, q) => *p as f64 / *q as f64,
        Expr::Var(q) => m.get(*q),
        Expr::Neg(a) => -value(a, m),
        Expr::Add(a, b) => value(a, m) + value(b, m),
        Expr::Sub(a, b) => value(a, m) - value(b, m),
        Expr::Mul(a, b) => value(a, m) * value(b, m),
        Expr::Div(a, b) => value(a, m) / value(b, m),
        Expr::Min(a, b) => value(a, m).min(value(b, m)),
        Expr::Max(a, b) => value(a, m).max(value(b, m)),
        Expr::Clamp(a, lo, hi) => value(a, m).clamp(value(lo, m), value(hi, m)),
        Expr::Abs(a) => value(a, m).abs(),
        Expr::Sin(a) => value(a, m).sin(),
        Expr::Cos(a) => value(a, m).cos(),
        Expr::Sqrt(a) => value(a, m).sqrt(),
        Expr::Atan2(y, x) => value(y, m).atan2(value(x, m)),
        Expr::Select(c, a, b) => {
            if holds(c, m) {
                value(a, m)
            } else {
                value(b, m)
            }
        }
    }
}

/// Whether the condition holds.
fn holds(c: &Cond, m: &Measures) -> bool {
    match c {
        Cond::Always => true,
        Cond::Finite(a) => value(a, m).is_finite(),
        Cond::Gt(a, b) => value(a, m) > value(b, m),
        Cond::Ge(a, b) => value(a, m) >= value(b, m),
        Cond::Eq(a, b) => value(a, m) == value(b, m),
        Cond::Not(a) => !holds(a, m),
        Cond::And(a, b) => holds(a, m) && holds(b, m),
        Cond::Or(a, b) => holds(a, m) || holds(b, m),
    }
}

/// Where the point is.
fn place(p: &Point, m: &Measures) -> (f64, f64) {
    (value(&p.x, m), value(&p.y, m))
}

/// Whether two numbers are the same but for rounding.
fn near(a: f64, b: f64) -> bool {
    (a - b).abs() < 1e-6
}

fn comp_with_two() -> Composition {
    Composition { patch_ids: vec!["a".to_string(), "b".to_string()] }
}

/// A plot on a patch, or a panic with the reason why there is none.
fn plot_on(patch: &str) -> Plot {
    match Plot::try_new(&comp_with_two(), patch) {
        Ok(p) => p,
        Err(e) => panic!("{}", e.message(&format!("{:?}", patch), "")),
    }
}

fn plot() -> Plot {
    plot_on("a")
}

/// A scale over a range, without bounds.
fn continuous(lo: f64, hi: f64) -> Scale {
    bounded(lo, hi, f64::NEG_INFINITY, f64::INFINITY)
}

fn bounded(lo: f64, hi: f64, bound_lo: f64, bound_hi: f64) -> Scale {
    Scale::Continuous(ScaleRange {
        lo: num(lo),
        hi: num(hi),
        bound_lo: num(bound_lo),
        bound_hi: num(bound_hi),
    })
}

fn registry(scales: Vec<(&str, Scale)>) -> ScaleRegistry {
    let mut r = ScaleRegistry::new();
    for (name, scale) in scales {
        r.insert(name, scale);
    }
    r
}

fn page(w: f64, h: f64) -> Measures {
    Measures::panel(0.0, 0.0, w, h, 96.0)
}

/// The proportion that the plot asks for.
fn aspect(p: &Plot, reg: &ScaleRegistry) -> Option<(f64, f64)> {
    let m = page(100.0, 100.0);
    match p.desired_panel_aspect(reg) {
        Some(a) if holds(&a.when, &m) => Some((value(&a.width, &m), value(&a.height, &m))),
        _ => None,
    }
}

/// The scale that is widened on a panel, and its new range.
fn overlay(p: &Plot, reg: &ScaleRegistry, w: f64, h: f64) -> Option<(String, f64, f64)> {
    let m = page(w, h);
    let o = p.build_aspect_overlay(reg)?;
    if !holds(&o.applies, &m) {
        return None;
    }
    let (name, range) = if holds(&o.across, &m) {
        (o.x_scale, o.x_range)
    } else {
        (o.y_scale, o.y_range)
    };
    Some((name, value(&range.lo, &m), value(&range.hi, &m)))
}

fn segment() -> AnyGeom {
    AnyGeom::Segment(built(SegmentGeom::build_from(builder_of(vec![
        ("x", numbers(&[0.0, 1.0])),
        ("y", numbers(&[0.0, 1.0])),
        ("x2", numbers(&[1.0, 2.0])),
        ("y2", numbers(&[1.0, 2.0])),
        ("stroke", ink(red())),
        ("pick_id", numbers(&[100.0, 200.0])),
    ]))))
}

fn wedge() -> AnyGeom {
    AnyGeom::Wedge(built(WedgeGeom::build_from(builder_of(vec![
        ("x", numbers(&[0.0, 1.0, 2.0])),
        ("y", numbers(&[0.0, 1.0, 2.0])),
        ("radius", number(5.0)),
        ("fill", ink(red())),
        ("pick_id", numbers(&[100.0, 200.0, 300.0])),
    ]))))
}

fn title_theme(inside: bool) -> AxisTitleTheme {
    AxisTitleTheme {
        shown: true,
        inside,
        margin_top: num(1.5),
        margin_right: num(3.0),
        margin_bottom: num(1.5),
        margin_left: num(3.0),
    }
}

fn theme() -> PlotTheme {
    PlotTheme {
        title: true,
        subtitle: true,
        caption: true,
        align_to: AlignTo::Plot,
        top: title_theme(false),
        right: title_theme(false),
        bottom: title_theme(false),
        left: title_theme(false),
        strips: StripRoom { top: true, right: true, bottom: true, left: true },
    }
}

fn rect(x0: f64, y0: f64, x1: f64, y1: f64) -> SlotRect {
    SlotRect { x0: num(x0), y0: num(y0), x1: num(x1), y1: num(y1) }
}

/// What the plot asks of the layout. Its axes have no breaks.
fn wired(p: &Plot, reg: &ScaleRegistry) -> Vec<WireOp> {
    let breaks = p.axes().iter().map(|_| vec![]).collect();
    p.wire(reg, &theme(), p.legends(), &breaks).0
}

/// The slots that are asked for.
fn slots(ops: &[WireOp]) -> Vec<Slot> {
    ops.iter()
        .filter_map(|op| match op {
            WireOp::Aspect(_) => None,
            WireOp::Text { slot, .. }
            | WireOp::AxisRail { slot, .. }
            | WireOp::AxisTitle { slot, .. }
            | WireOp::Bleed { slot, .. }
            | WireOp::Legends { slot, .. }
            | WireOp::Strip { slot, .. } => Some(*slot),
            WireOp::Panel => Some(Slot::Panel),
        })
        .collect()
}

fn bottom(scale: &str) -> Axis {
    Axis::rail(scale, AxisPlacement::Cartesian(AxisSide::Bottom))
}

#[test]
#[should_panic(expected = "no patch with id")]
fn new_panics_on_unknown_patch() {
    plot_on("nope");
}

#[test]
fn new_accepts_known_patch() {
    let c = comp_with_two();
    let p = Plot::new(&c, "a");
    assert_eq!(p.patch_id(), "a");
}

#[test]
fn errors_say_what_is_wrong() {
    match Plot::try_new(&comp_with_two(), "nope") {
        Err(e) => {
            assert!(matches!(&e, PlotError::UnknownPatch(id) if id == "nope"));
            assert_eq!(e.message("\"nope\"", ""), "no patch with id \"nope\" in the composition");
        }
        Ok(_) => panic!("no such patch"),
    }
    let e = PlotError::InPanelLegendUnsupported;
    assert_eq!(
        e.message("", ""),
        "an in-panel legend anchors to a panel rect, which this target doesn't have"
    );
}

#[test]
fn axes_must_suit_the_projection() {
    let mut p = plot();
    let ring = AxisPlacement::PolarAngular(PolarRing::Outer);
    match p.try_add_axis(Axis::rail("x", ring)) {
        Err(e) => {
            assert!(matches!(
                e,
                PlotError::AxisProjectionMismatch { projection: ProjectionKind::Cartesian, .. }
            ));
            assert_eq!(
                e.message("A", "B"),
                "axis placement A is incompatible with projection B"
            );
        }
        Ok(_) => panic!("a ring has no place here"),
    }
    assert!(p.axes().is_empty());
    assert!(p.try_add_axis(bottom("x")).is_ok());
    let mut p = plot().projection(Projection::polar());
    assert!(p.try_add_axis(bottom("x")).is_err());
    assert!(p.try_add_axis(Axis::rail("x", ring)).is_ok());
    let spoke = AxisPlacement::PolarRadius { theta_frac: num(0.25) };
    assert!(p.try_add_axis(Axis::rail("y", spoke)).is_ok());
    assert_eq!(p.axes().len(), 2);
    p.clear_axes();
    assert!(p.axes().is_empty());
}

#[test]
fn chaining_sets_fields() {
    let p = plot()
        .title("T".to_string())
        .subtitle("S".to_string())
        .bind("x", "time")
        .bind("y", "price");
    assert_eq!(p.title.as_deref(), Some("T"));
    assert_eq!(p.subtitle.as_deref(), Some("S"));
    assert_eq!(p.binding("x"), Some("time"));
    assert_eq!(p.binding("y"), Some("price"));
}

#[test]
fn what_is_set_reads_back() {
    let mut p = plot()
        .caption("C".to_string())
        .clip(false)
        .track_identity(true)
        .aspect_ratio(num(2.0))
        .aspect_mode(AspectMode::Range)
        .strip(AxisSide::Top, "above".to_string())
        .projection(Projection::gauge())
        .theme_override(ThemePart { settings: NameMap::new() });
    assert_eq!(p.caption_ref(), Some("C"));
    assert_eq!(p.title_ref(), None);
    assert_eq!(p.subtitle_ref(), None);
    assert!(!p.is_clipped());
    assert!(p.tracks_identity());
    assert_eq!(p.aspect_ratio_ref(), Some(num(2.0)));
    assert!(matches!(p.aspect_mode_ref(), AspectMode::Range));
    assert_eq!(p.strip_at(AxisSide::Top), Some("above"));
    assert_eq!(p.strip_at(AxisSide::Left), None);
    assert!(matches!(p.projection_ref(), Projection::Polar(_)));
    assert!(p.theme_override_ref().is_some());
    p.set_theme_override(None);
    assert!(p.theme_override_ref().is_none());
    p.set_title("T".to_string());
    assert_eq!(p.title_ref(), Some("T"));
    p.clear_title();
    assert_eq!(p.title_ref(), None);
    p.set_strip(AxisSide::Left, Some("beside".to_string()));
    p.set_strip(AxisSide::Top, None);
    assert_eq!(p.strip_at(AxisSide::Left), Some("beside"));
    assert_eq!(p.strip_at(AxisSide::Top), None);
    p.set_binding("x", "time");
    assert_eq!(p.bindings().len(), 1);
}

#[test]
fn registries_can_be_swapped_and_filled() {
    let mut p = plot().shape_registry(ShapeRegistry::new()).image_registry(ImageRegistry::new());
    assert!(!p.shape_registry_ref().builtins);
    p.shape_registry_mut().insert("star", 7);
    assert_eq!(p.shape_registry_ref().shapes.get("star"), Some(&7));
    p.set_shape_registry(ShapeRegistry::with_builtins());
    assert!(p.shape_registry_ref().builtins);
    assert!(p.image_registry_ref().is_empty());
    let pixel = Image {
        data: Arc::new(vec![1, 2, 3, 255]),
        format: ImageFormat::Rgba8,
        alpha_type: ImageAlphaType::Alpha,
        width: 1,
        height: 1,
    };
    p.image_registry_mut().insert("dot".to_string(), pixel);
    assert!(p.image_registry_ref().contains("dot"));
    p.set_image_registry(ImageRegistry::new());
    assert!(p.image_registry_ref().is_empty());
}

#[test]
fn cartesian_aspect_ratio_propagates_extents() {
    let reg = registry(vec![("x", continuous(0.0, 10.0)), ("y", continuous(0.0, 5.0))]);
    let p = plot().bind("x", "x").bind("y", "y").aspect_ratio(num(2.0));
    let (w, h) = aspect(&p, &reg).expect("aspect set");
    assert!((w - 20.0).abs() < 1e-4, "w = {}", w);
    assert!((h - 5.0).abs() < 1e-4, "h = {}", h);
}

#[test]
fn cartesian_aspect_ratio_default_is_none() {
    assert!(aspect(&plot(), &ScaleRegistry::new()).is_none());
}

#[test]
fn cartesian_aspect_ratio_needs_continuous_extents() {
    let reg = registry(vec![("x", Scale::Other), ("y", continuous(0.0, 1.0))]);
    let p = plot().bind("x", "x").bind("y", "y").aspect_ratio(num(1.0));
    assert!(aspect(&p, &reg).is_none());
}

#[test]
fn range_mode_skips_panel_lock() {
    let reg = registry(vec![("x", continuous(0.0, 10.0)), ("y", continuous(0.0, 5.0))]);
    let p = plot()
        .bind("x", "x")
        .bind("y", "y")
        .aspect_ratio(num(2.0))
        .aspect_mode(AspectMode::Range);
    assert!(aspect(&p, &reg).is_none());
}

/// A plot whose scales are widened, with its scales.
fn widened(x: Scale, y: Scale) -> (Plot, ScaleRegistry) {
    let p = plot()
        .bind("x", "x")
        .bind("y", "y")
        .aspect_ratio(num(1.0))
        .aspect_mode(AspectMode::Range);
    (p, registry(vec![("x", x), ("y", y)]))
}

#[test]
fn range_mode_expands_x_when_panel_is_wide() {
    let (p, reg) = widened(continuous(0.0, 10.0), continuous(0.0, 10.0));
    let (name, min, max) = overlay(&p, &reg, 200.0, 100.0).expect("x scale overridden");
    assert_eq!(name, "x");
    assert!((min - (-5.0)).abs() < 1e-9, "x min = {}", min);
    assert!((max - 15.0).abs() < 1e-9, "x max = {}", max);
}

#[test]
fn range_mode_expands_y_when_panel_is_tall() {
    let (p, reg) = widened(continuous(0.0, 10.0), continuous(0.0, 10.0));
    let (name, min, max) = overlay(&p, &reg, 100.0, 200.0).expect("y scale overridden");
    assert_eq!(name, "y");
    assert!((min - (-5.0)).abs() < 1e-9, "y min = {}", min);
    assert!((max - 15.0).abs() < 1e-9, "y max = {}", max);
}

#[test]
fn range_mode_expands_in_transformed_space() {
    // Square roots of 0 to 100, which have no place below nought.
    let x = bounded(0.0, 10.0, 0.0, f64::INFINITY);
    let (p, reg) = widened(x, continuous(0.0, 10.0));
    let (name, lo, hi) = overlay(&p, &reg, 200.0, 100.0).expect("x scale overridden");
    assert_eq!(name, "x");
    let (min, max) = (lo * lo, hi * hi);
    assert!(lo >= 0.0, "x min must stay in the domain, got {}", lo);
    assert!((min - 0.0).abs() < 1e-9, "x min = {}", min);
    assert!((max - 400.0).abs() < 1e-6, "x max = {}", max);
}

#[test]
fn range_mode_leaves_a_fitting_panel_alone() {
    let (p, reg) = widened(continuous(0.0, 10.0), continuous(0.0, 10.0));
    assert!(overlay(&p, &reg, 100.0, 100.0).is_none());
}

#[test]
fn range_mode_panel_mode_skips_overlay() {
    let reg = registry(vec![("x", continuous(0.0, 10.0)), ("y", continuous(0.0, 10.0))]);
    let p = plot().bind("x", "x").bind("y", "y").aspect_ratio(num(1.0));
    assert!(overlay(&p, &reg, 200.0, 100.0).is_none());
}

#[test]
fn range_mode_polar_drops_bbox_lock() {
    let reg = ScaleRegistry::new();
    let panel_mode = plot().projection(Projection::polar());
    let (w, h) = aspect(&panel_mode, &reg).expect("polar reports bbox aspect");
    assert!((w - h).abs() < 1e-4, "expected 1:1 full circle, got {}:{}", w, h);
    let range_mode = plot().projection(Projection::polar()).aspect_mode(AspectMode::Range);
    assert!(aspect(&range_mode, &reg).is_none());
    let gauge = plot().projection(Projection::gauge());
    let (w, h) = aspect(&gauge, &reg).expect("polar reports bbox aspect");
    assert!(near(w, 2.0 * h), "{}:{}", w, h);
}

#[test]
fn range_mode_polar_skips_overlay() {
    let reg = registry(vec![("x", continuous(0.0, 10.0)), ("y", continuous(0.0, 10.0))]);
    let p = plot()
        .projection(Projection::polar())
        .bind("x", "x")
        .bind("y", "y")
        .aspect_ratio(num(2.0))
        .aspect_mode(AspectMode::Range);
    assert!(overlay(&p, &reg, 200.0, 100.0).is_none());
}

#[test]
fn unbind_removes_binding() {
    let mut p = plot().bind("x", "time");
    assert_eq!(p.binding("x"), Some("time"));
    assert_eq!(p.unbind("x").as_deref(), Some("time"));
    assert!(p.binding("x").is_none());
}

#[test]
fn add_remove_geom_round_trip() {
    let mut p = plot();
    let id = p.add_geom(segment());
    assert!(p.geom_ids().iter().any(|gid| *gid == id));
    assert!(p.remove_geom(id).is_some());
    assert!(!p.geom_ids().iter().any(|gid| *gid == id));
    assert!(p.remove_geom(id).is_none());
}

#[test]
fn handles_are_never_given_twice() {
    let mut p = plot();
    let a = p.add_geom(segment());
    let b = p.add_boxed_geom(Box::new(wedge()));
    assert_ne!(a, b);
    p.remove_geom(b);
    let c = p.add_geom(wedge());
    assert_ne!(b, c);
    assert_eq!(p.geom_ids(), vec![a, c]);
    assert_eq!(p.geoms().len(), 2);
    assert!(matches!(p.geom(a), Some(AnyGeom::Segment(_))));
    assert!(matches!(p.geom(c), Some(AnyGeom::Wedge(_))));
    assert!(p.geom(b).is_none());
}

#[test]
fn update_geom_runs_closure() {
    let mut p = plot();
    let id = p.add_geom(segment());
    p.dirty = false;
    p.update_geom(id, |g| match g {
        AnyGeom::Segment(g) => built(g.set("y", numbers(&[5.0, 6.0]))),
        _ => panic!("a segment"),
    });
    assert!(p.dirty);
    assert!(p.geom_ids().iter().any(|gid| *gid == id));
    match p.geom(id) {
        Some(AnyGeom::Segment(g)) => match g.state.channels.get("y") {
            Some(Channel::Data(c)) => assert!(c.get(1).key_eq(&Value::Number(num(6.0)))),
            other => panic!("{:?}", other),
        },
        _ => panic!("a segment"),
    }
}

#[test]
fn a_geom_is_changed_where_it_stands() {
    let mut p = plot();
    let id = p.add_geom(segment());
    let other = p.add_geom(wedge());
    for y in [5.0, 6.0] {
        p.update_geom(id, |g| match g {
            AnyGeom::Segment(g) => {
                let mut b = g.edit();
                b.set("y", numbers(&[y, y]));
                built(g.update(b));
            }
            _ => panic!("a segment"),
        });
    }
    // The frame before is the one of the first change.
    match p.geom(id) {
        Some(AnyGeom::Segment(g)) => match g.state.prev_channels.get("y") {
            Some(Channel::Data(c)) => assert!(c.get(0).key_eq(&Value::Number(num(5.0)))),
            other => panic!("{:?}", other),
        },
        _ => panic!("a segment"),
    }
    p.dirty = false;
    match p.geom_mut(other) {
        Some(AnyGeom::Wedge(g)) => built(g.set("radius", number(7.0))),
        _ => panic!("a wedge"),
    }
    assert!(p.dirty);
    assert_eq!(p.geom_ids(), vec![id, other]);
}

#[test]
fn a_geom_that_is_not_there_is_not_changed() {
    let mut p = plot();
    let id = p.add_geom(segment());
    p.remove_geom(id);
    p.dirty = false;
    p.update_geom(id, |_| panic!("there is no geom"));
    assert!(p.geom_mut(id).is_none());
    assert!(!p.dirty);
}

#[test]
fn draw_panel_into_skips_when_panel_missing() {
    let mut p = plot();
    p.add_geom(segment());
    let reg = ScaleRegistry::new();
    assert!(p.draw_panel_into(&Layout::new(), &reg, None).is_none());
    let mut layout = Layout::new();
    layout.place("a", Slot::Panel, rect(10.0, 10.0, 10.0, 90.0));
    assert!(p.draw_panel_into(&layout, &reg, None).is_none());
}

#[test]
fn draw_panel_into_emits_user_pick_ids() {
    let mut p = plot();
    let id = p.add_geom(wedge());
    let mut layout = Layout::new();
    layout.place("a", Slot::Panel, rect(0.0, 0.0, 400.0, 300.0));
    let (_, ops) = p
        .draw_panel_into(&layout, &ScaleRegistry::new(), None)
        .expect("a panel");
    assert!(ops.contains(&GeomOp::Geom(id)));
    let m = page(400.0, 300.0);
    let mut ids = vec![];
    for op in ops {
        if let GeomOp::Geom(id) = op {
            if let Some(AnyGeom::Wedge(g)) = p.geom(id) {
                for step in g.draw(&ScaleOutputs::new()) {
                    if !holds(&step.when, &m) {
                        continue;
                    }
                    if let Op::Fill { pick: PickId::Id(n), .. } = step.op {
                        ids.push(n);
                    }
                }
            }
        }
    }
    assert_eq!(ids, vec![100, 200, 300]);
}

#[test]
fn whatever_changes_a_plot_marks_it() {
    let mut layout = Layout::new();
    layout.place("a", Slot::Panel, rect(0.0, 0.0, 400.0, 300.0));
    let changes: Vec<fn(&mut Plot)> = vec![
        |p| p.set_theme_override(None),
        |p| p.set_shape_registry(ShapeRegistry::new()),
        |p| p.shape_registry_mut().insert("dot", 3),
        |p| p.set_image_registry(ImageRegistry::new()),
        |p| {
            p.image_registry_mut().remove("a");
        },
        |p| {
            p.add_axis(bottom("x"));
        },
        |p| p.clear_axes(),
        |p| {
            p.add_legend(Legend::new("x"));
        },
        |p| {
            p.add_legend_separate(Legend::new("x"));
        },
        |p| p.clear_legends(),
        |p| p.set_title("T".to_string()),
        |p| p.set_binding("x", "x"),
        |p| p.set_strip(AxisSide::Top, None),
    ];
    let mut p = plot();
    for (k, change) in changes.iter().enumerate() {
        assert!(p.draw_geoms_into(&layout).is_some());
        assert!(!p.dirty);
        change(&mut p);
        assert!(p.dirty, "{}", k);
    }
    // An axis that does not fit changes nothing.
    assert!(p.draw_geoms_into(&layout).is_some());
    let polar = Axis::rail("x", AxisPlacement::PolarAngular(PolarRing::Outer));
    assert!(p.try_add_axis(polar).is_err());
    assert!(!p.dirty);
}

#[test]
fn geoms_are_drawn_inside_the_outline() {
    let mut p = plot();
    let a = p.add_geom(segment());
    let b = p.add_geom(wedge());
    assert!(p.dirty);
    let mut layout = Layout::new();
    layout.place("a", Slot::Panel, rect(0.0, 0.0, 400.0, 300.0));
    assert_eq!(
        p.draw_geoms_into(&layout),
        Some(vec![GeomOp::PushOutline, GeomOp::Geom(a), GeomOp::Geom(b), GeomOp::PopLayer])
    );
    // Nobody asked for the diffs.
    assert!(p.geoms().iter().all(|(_, g)| g.state().dirty));
    let mut p = p.clip(false).track_identity(true);
    assert_eq!(p.draw_geoms_into(&layout), Some(vec![GeomOp::Geom(a), GeomOp::Geom(b)]));
    assert!(p.geoms().iter().all(|(_, g)| !g.state().dirty));
}

#[test]
fn the_panel_knows_its_scales() {
    let reg = registry(vec![("time", continuous(0.0, 10.0))]);
    let p = plot().bind("x", "time").bind("y", "price");
    let mut layout = Layout::new();
    layout.place("a", Slot::Panel, rect(0.0, 0.0, 400.0, 300.0));
    let chrome = p.draw_panel_chrome_into(&layout, &reg, None).expect("a panel");
    let choice = chrome.channel_0.expect("a scale");
    assert_eq!((choice.name.as_str(), choice.overlaid), ("time", false));
    assert!(chrome.channel_1.is_none());
    let chrome = p.draw_panel_chrome_into(&layout, &reg, Some("time")).expect("a panel");
    assert!(chrome.channel_0.expect("a scale").overlaid);
    assert!(p.scale_for(&reg, None, "x").is_some());
    assert!(p.scale_for(&reg, None, "y").is_none());
    assert!(p.scale_for(&reg, None, "fill").is_none());
}

#[test]
fn a_background_fills_its_slot() {
    let p = plot();
    let background = PlotBackground {
        fill: Some(red()),
        color: blue(),
        linewidth_pt: num(1.5),
        corner_radius_pt: num(0.0),
    };
    let mut layout = Layout::new();
    assert!(p.draw_patch_background_into(&layout, Some(&background)).is_empty());
    layout.place("a", Slot::Background, rect(0.0, 0.0, 400.0, 300.0));
    assert!(p.draw_patch_background_into(&layout, None).is_empty());
    let m = page(400.0, 300.0);
    let ops: Vec<Op> = p
        .draw_patch_background_into(&layout, Some(&background))
        .into_iter()
        .filter(|s| holds(&s.when, &m))
        .map(|s| s.op)
        .collect();
    assert_eq!(ops.len(), 2);
    assert!(matches!(&ops[0], Op::Fill { path: Path::Rect(_), paint, .. } if paint.color == red()));
    match &ops[1] {
        Op::Stroke { pen, paint, .. } => {
            assert!(near(value(&pen.width, &m), 2.0));
            assert_eq!(paint.color, blue());
        }
        other => panic!("{:?}", other),
    }
}

#[test]
fn wire_drops_axis_bottom_when_explicit_axis_added() {
    let reg = registry(vec![("x", continuous(0.0, 10.0))]);
    let mut p = plot().bind("x", "x");
    p.add_axis(bottom("x"));
    let slots = slots(&wired(&p, &reg));
    assert!(slots.contains(&Slot::AxisBottom));
    assert!(slots.contains(&Slot::Panel));
    assert!(!slots.contains(&Slot::AxisLeft));
}

#[test]
fn wire_includes_title_slot() {
    let p = plot().title("Hello".to_string());
    let ops = wired(&p, &ScaleRegistry::new());
    assert!(slots(&ops).contains(&Slot::Title));
    assert!(matches!(&ops[0], WireOp::Text { text, .. } if text == "Hello"));
}

#[test]
fn a_hidden_title_asks_for_nothing() {
    let p = plot().title("Hello".to_string());
    let mut theme = theme();
    theme.title = false;
    let (ops, _) = p.wire(&ScaleRegistry::new(), &theme, p.legends(), &vec![]);
    assert_eq!(slots(&ops), vec![Slot::Panel]);
}

#[test]
fn wire_skips_unbound_axis() {
    let slots = slots(&wired(&plot(), &ScaleRegistry::new()));
    assert!(!slots.contains(&Slot::AxisBottom));
    assert!(!slots.contains(&Slot::AxisLeft));
    assert!(slots.contains(&Slot::Panel));
}

#[test]
fn shared_x_scale_drives_two_plots() {
    let reg = registry(vec![("time", continuous(0.0, 100.0))]);
    let rail = |patch: &str| {
        let mut p = plot_on(patch).bind("x", "time");
        p.add_axis(bottom("time"));
        wired(&p, &reg).into_iter().find_map(|op| match op {
            WireOp::AxisRail { side, slot, scale_name } => Some((side, slot, scale_name)),
            _ => None,
        })
    };
    let (a, b) = (rail("a").expect("an axis"), rail("b").expect("an axis"));
    assert_eq!(a, b);
    assert_eq!(a.1, Slot::AxisBottom);
    assert_eq!(a.2, "time");
}

#[test]
fn an_axis_without_its_scale_asks_for_nothing() {
    let mut p = plot();
    p.add_axis(bottom("missing").titled("T"));
    let slots = slots(&wired(&p, &ScaleRegistry::new()));
    assert!(!slots.contains(&Slot::AxisBottom));
    assert!(slots.contains(&Slot::AxisBottomTitle));
}

#[test]
fn the_panel_is_asked_for_last() {
    let reg = registry(vec![("x", continuous(0.0, 10.0)), ("y", continuous(0.0, 5.0))]);
    let mut p = plot()
        .title("T".to_string())
        .subtitle("S".to_string())
        .caption("C".to_string())
        .bind("x", "x")
        .bind("y", "y")
        .aspect_ratio(num(2.0))
        .strip(AxisSide::Left, "strip".to_string());
    p.add_axis(bottom("x").titled("X"));
    p.add_legend(Legend::new("x"));
    let ops = wired(&p, &reg);
    assert!(matches!(ops[ops.len() - 1], WireOp::Panel));
    assert_eq!(ops.iter().filter(|op| matches!(op, WireOp::Panel)).count(), 1);
    assert!(ops.iter().any(|op| matches!(op, WireOp::Aspect(_))));
    let slots = slots(&ops);
    for slot in [
        Slot::Title,
        Slot::Subtitle,
        Slot::Caption,
        Slot::AxisBottom,
        Slot::AxisBottomTitle,
        Slot::LegendRight,
        Slot::StripLeft,
    ] {
        assert!(slots.contains(&slot), "{:?}", slot);
    }
}

#[test]
fn add_legend_separate_opts_out_of_collapse() {
    let mut p = plot();
    p.add_legend(Legend::new("cat_fill"));
    p.add_legend_separate(Legend::new("cat_fill"));
    let merge: Vec<bool> = p.legends().iter().map(|l| l.merge).collect();
    assert_eq!(merge, vec![true, false]);
    p.clear_legends();
    assert!(p.legends().is_empty());
}

#[test]
fn polar_axes_need_room_outside() {
    let reg = registry(vec![("x", continuous(0.0, 10.0))]);
    let mut p = plot().projection(Projection::polar()).bind("x", "x");
    p.add_axis(Axis::rail("x", AxisPlacement::PolarAngular(PolarRing::Outer)));
    let at = |frac: f64| AxisBreak { null: false, frac: Some(num(frac)) };
    let breaks = vec![vec![
        at(0.0),
        AxisBreak { null: true, frac: None },
        AxisBreak { null: false, frac: None },
        at(0.25),
    ]];
    let bleeds = p.wire_chrome_bleed(&reg, &breaks);
    assert_eq!(bleeds.len(), 1);
    assert_eq!(bleeds[0].kind, BleedLabelKind::OuterAngular);
    let kept: Vec<usize> = bleeds[0].labels.iter().map(|l| l.at).collect();
    assert_eq!(kept, vec![0, 3]);
    let m = page(400.0, 400.0);
    // The first label lies above the disk, the last to its right.
    let up = place(&bleeds[0].labels[0].direction, &m);
    let right = place(&bleeds[0].labels[1].direction, &m);
    assert!(near(up.0, 0.0) && near(up.1, -1.0), "{:?}", up);
    assert!(near(right.0, 1.0) && near(right.1, 0.0), "{:?}", right);
    let (ops, _) = p.wire(&reg, &theme(), p.legends(), &breaks);
    assert_eq!(ops.iter().filter(|op| matches!(op, WireOp::Bleed { .. })).count(), 4);
}

#[test]
fn strips_without_room_ask_for_none() {
    let p = plot()
        .strip(AxisSide::Top, "above".to_string())
        .strip(AxisSide::Left, "beside".to_string());
    let mut theme = theme();
    theme.strips.top = false;
    let (ops, _) = p.wire(&ScaleRegistry::new(), &theme, p.legends(), &vec![]);
    assert_eq!(slots(&ops), vec![Slot::StripLeft, Slot::Panel]);
}

#[test]
fn the_largest_label_keeps_the_title_off() {
    let size = |w: f64, h: f64| LabelSize { width: num(w), height: num(h) };
    assert_eq!(label_max(&vec![]), num(0.0));
    assert_eq!(label_max(&vec![size(3.0, 8.0), size(12.5, 8.0), size(9.0, 9.0)]), num(12.5));
    assert_eq!(label_max(&vec![size(3.0, 8.0), size(f64::NAN, 2.0)]), num(8.0));
}

#[test]
fn chrome_is_drawn_where_it_was_laid_out() {
    let reg = registry(vec![("x", continuous(0.0, 10.0))]);
    let mut p = plot()
        .title("T".to_string())
        .bind("x", "x")
        .strip(AxisSide::Top, "strip".to_string());
    p.add_axis(bottom("x").titled("X"));
    p.add_legend(Legend::new("x"));
    let inside = LegendSide::InPanel { anchor: Anchor::TopLeft, inset_pt: num(6.0) };
    p.add_legend(Legend::new("x").on(inside));
    let mut layout = Layout::new();
    layout.place("a", Slot::Panel, rect(50.0, 50.0, 350.0, 250.0));
    layout.place("a", Slot::AxisBottom, rect(50.0, 250.0, 350.0, 270.0));
    layout.place("a", Slot::AxisBottomTitle, rect(50.0, 270.0, 350.0, 290.0));
    layout.place("a", Slot::Title, rect(0.0, 0.0, 400.0, 20.0));
    layout.place("a", Slot::StripTop, rect(50.0, 30.0, 350.0, 50.0));
    layout.place("a", Slot::LegendRight, rect(360.0, 50.0, 400.0, 250.0));
    let agree = vec![vec![true, true], vec![true, true]];
    let plan = p.draw_chrome_into(&layout, &reg, None, &theme(), p.legends(), &agree);
    assert_eq!(plan.axes.len(), 1);
    assert_eq!(plan.strips.len(), 1);
    assert_eq!(plan.legends.len(), 1);
    assert_eq!(plan.panel_legends.len(), 1);
    assert_eq!(plan.texts.len(), 1);
    assert_eq!(plan.axis_titles.len(), 1);
    let ops = plan.in_order();
    assert!(matches!(&ops[0], ChromeOp::Axis(a) if a.rect == Some(rect(50.0, 250.0, 350.0, 270.0))));
    assert!(matches!(&ops[1], ChromeOp::Strip { side: AxisSide::Top, .. }));
    assert!(matches!(&ops[2], ChromeOp::Legends { members, .. } if *members == vec![0]));
    assert!(matches!(&ops[3], ChromeOp::PanelLegends { members, .. } if *members == vec![1]));
    assert!(matches!(&ops[4], ChromeOp::Text { text, .. } if text == "T"));
    assert!(matches!(&ops[5], ChromeOp::TitleBeside { title, .. } if title == "X"));
}

#[test]
fn legends_are_grouped_by_side() {
    let legends = vec![
        Legend::new("a").on(LegendSide::Left),
        Legend::new("b"),
        Legend::new("c").on(LegendSide::Left),
    ];
    let groups = legends_grouped_by_side(&legends);
    let found: Vec<(Slot, Vec<usize>)> =
        groups.iter().map(|g| (g.slot, g.members.clone())).collect();
    assert_eq!(
        found,
        vec![
            (Slot::LegendRight, vec![1]),
            (Slot::LegendLeft, vec![0, 2]),
            (Slot::LegendTop, vec![]),
            (Slot::LegendBottom, vec![]),
        ]
    );
}

#[test]
fn legends_in_the_panel_are_grouped_by_place() {
    let at = |anchor: Anchor, inset: f64| {
        Legend::new("s").on(LegendSide::InPanel { anchor, inset_pt: num(inset) })
    };
    let legends = vec![
        at(Anchor::TopLeft, 6.0),
        at(Anchor::Bottom, 6.0),
        at(Anchor::TopLeft, 6.0),
        at(Anchor::TopLeft, 12.0),
        Legend::new("s"),
    ];
    let m = page(100.0, 100.0);
    let inset = |l: &Legend| match l.side {
        LegendSide::InPanel { inset_pt, .. } => inset_pt,
        _ => num(0.0),
    };
    let agree: Vec<Vec<bool>> = legends
        .iter()
        .map(|a| legends.iter().map(|b| holds(&insets_agree(inset(a), inset(b)), &m)).collect())
        .collect();
    let groups: Vec<Vec<usize>> = legends_grouped_in_panel(&legends, &agree)
        .iter()
        .map(|g| g.members.clone())
        .collect();
    assert_eq!(groups, vec![vec![0, 2], vec![1], vec![3]]);
}

#[test]
fn sides_have_slots_of_their_own() {
    for (i, side) in [AxisSide::Top, AxisSide::Right, AxisSide::Bottom, AxisSide::Left]
        .into_iter()
        .enumerate()
    {
        assert_eq!(axis_side_index(side), i);
        assert_eq!(strip_side(i), side);
    }
    assert_eq!(cartesian_axis_slot(AxisSide::Right), Slot::AxisRight);
    assert_eq!(cartesian_axis_title_slot(AxisSide::Left), Slot::AxisLeftTitle);
    assert_eq!(strip_slot(AxisSide::Top), Slot::StripTop);
}

#[test]
fn titles_stand_over_the_plot_or_the_panel() {
    let slot = GridPlace { row: 1, col: 0, rows: 1, cols: 9 };
    assert_eq!(title_band_placement(slot, 4, AlignTo::Plot), slot);
    assert_eq!(
        title_band_placement(slot, 4, AlignTo::Panel),
        GridPlace { row: 1, col: 4, rows: 1, cols: 1 }
    );
}

#[test]
fn a_range_is_widened_evenly_within_its_bounds() {
    let m = page(100.0, 100.0);
    let widen = |lo: f64, hi: f64, a: f64, b: f64, extent: f64| {
        let range = ScaleRange {
            lo: num(lo),
            hi: num(hi),
            bound_lo: num(a),
            bound_hi: num(b),
        };
        let ends = expand_within_domain(&range, Expr::Lit(num(extent)));
        (value(&ends.lo, &m), value(&ends.hi, &m))
    };
    let inf = f64::INFINITY;
    assert_eq!(widen(0.0, 10.0, -inf, inf, 20.0), (-5.0, 15.0));
    assert_eq!(widen(0.0, 10.0, 0.0, inf, 20.0), (0.0, 20.0));
    assert_eq!(widen(0.0, 10.0, -inf, 12.0, 20.0), (-8.0, 12.0));
    assert_eq!(widen(0.0, 10.0, -1.0, 12.0, 20.0), (-1.0, 12.0));
}

#[test]
fn an_end_lies_on_the_scale_of_the_start() {
    let reg = registry(vec![("t", continuous(0.0, 1.0)), ("u", continuous(0.0, 1.0))]);
    let p = plot().bind("x", "t");
    let name = |p: &Plot, g: &AnyGeom, channel: &str| {
        p.scale_for_geom(&reg, None, g, channel).map(|c| c.name)
    };
    assert_eq!(name(&p, &segment(), "x2").as_deref(), Some("t"));
    assert_eq!(name(&p, &segment(), "y2"), None);
    assert_eq!(name(&p, &wedge(), "x2"), None);
    let p = p.bind("x2", "u");
    assert_eq!(name(&p, &segment(), "x2").as_deref(), Some("u"));
    let p = p.bind("x2", "gone");
    assert_eq!(name(&p, &segment(), "x2").as_deref(), Some("t"));
    assert_eq!(segment().fallback("y2"), Some("y"));
    assert_eq!(segment().fallback("x"), None);
}

#[test]
fn a_widened_scale_gives_the_panel_its_proportion() {
    for (w, h, ratio) in [(200.0, 100.0, 1.0), (100.0, 300.0, 2.0), (123.0, 456.0, 0.7)] {
        let reg = registry(vec![("x", continuous(0.0, 10.0)), ("y", continuous(1.0, 4.0))]);
        let p = plot()
            .bind("x", "x")
            .bind("y", "y")
            .aspect_ratio(num(ratio))
            .aspect_mode(AspectMode::Range);
        let (name, lo, hi) = overlay(&p, &reg, w, h).expect("a widened scale");
        let (x, y) = if name == "x" { (hi - lo, 3.0) } else { (10.0, hi - lo) };
        // A step across takes `ratio` times the pixels of a step up.
        assert!(near((w / x) / (h / y), ratio), "{} {}", w / x, h / y);
    }
}
