//! What a plot asks of the layout of its patch.

use vstd::prelude::*;

use crate::expr::{
    e_add, e_half, e_int, e_mul, e_neg, e_select, Expr,
};
use crate::num::Num;
use crate::plot::aspect::{PanelAspect, Scale, ScaleRegistry};
use crate::plot::chrome::{
    axis_slot_of, axis_title_slot_of, cartesian_axis_slot, cartesian_axis_title_slot,
    is_side_group, legend_sides, legends_grouped_by_side, members_on, sides_in_order, strip_side,
    strip_slot, strip_slot_of, AlignTo, Axis, AxisPlacement, Legend, LegendSide, PolarRing,
};
use crate::plot::Plot;
use crate::projection::{PolarProjection, Projection, ONE, QUARTER_TURN};
use crate::scene::Point;
use crate::slot::{AxisSide, Slot};

verus! {

/// How the title of an axis is set.
#[derive(Clone, Copy, Debug, PartialEq, Eq, Structural)]
pub struct AxisTitleTheme {
    /// Whether it is drawn at all.
    pub shown: bool,
    /// Whether it lies in the panel, rather than beside it.
    pub inside: bool,
    /// The margin above it, in points.
    pub margin_top: Num,
    /// The margin right of it, in points.
    pub margin_right: Num,
    /// The margin below it, in points.
    pub margin_bottom: Num,
    /// The margin left of it, in points.
    pub margin_left: Num,
}

/// Which strips take any room, as they are measured.
#[derive(Clone, Copy, Debug, PartialEq, Eq, Structural)]
pub struct StripRoom {
    /// The strip above the panel.
    pub top: bool,
    /// The strip right of the panel.
    pub right: bool,
    /// The strip below the panel.
    pub bottom: bool,
    /// The strip left of the panel.
    pub left: bool,
}

impl StripRoom {
    /// Whether the strip of a side takes any room.
    pub open spec fn at(self, side: AxisSide) -> bool {
        match side {
            AxisSide::Top => self.top,
            AxisSide::Right => self.right,
            AxisSide::Bottom => self.bottom,
            AxisSide::Left => self.left,
        }
    }

    fn takes(&self, side: AxisSide) -> (r: bool)
        ensures
            r == self.at(side),
    {
        match side {
            AxisSide::Top => self.top,
            AxisSide::Right => self.right,
            AxisSide::Bottom => self.bottom,
            AxisSide::Left => self.left,
        }
    }
}

/// What a plot has to know of the theme.
#[derive(Clone, Copy, Debug)]
pub struct PlotTheme {
    /// Whether titles are drawn.
    pub title: bool,
    /// Whether subtitles are drawn.
    pub subtitle: bool,
    /// Whether captions are drawn.
    pub caption: bool,
    /// What they are lined up with.
    pub align_to: AlignTo,
    /// How the axis title above the panel is set.
    pub top: AxisTitleTheme,
    /// How the axis title right of the panel is set.
    pub right: AxisTitleTheme,
    /// How the axis title below the panel is set.
    pub bottom: AxisTitleTheme,
    /// How the axis title left of the panel is set.
    pub left: AxisTitleTheme,
    /// Which strips take any room.
    pub strips: StripRoom,
}

impl PlotTheme {
    /// How the axis title of a side is set.
    pub open spec fn title_at(self, side: AxisSide) -> AxisTitleTheme {
        match side {
            AxisSide::Top => self.top,
            AxisSide::Right => self.right,
            AxisSide::Bottom => self.bottom,
            AxisSide::Left => self.left,
        }
    }

    /// How the axis title of a side is set.
    pub fn axis_title(&self, side: AxisSide) -> (r: AxisTitleTheme)
        ensures
            r == self.title_at(side),
    {
        match side {
            AxisSide::Top => self.top,
            AxisSide::Right => self.right,
            AxisSide::Bottom => self.bottom,
            AxisSide::Left => self.left,
        }
    }
}

/// A break of an axis, as its scale gives it.
#[derive(Clone, Copy, Debug)]
pub struct AxisBreak {
    /// Whether there is no value.
    pub null: bool,
    /// Where the scale puts it, as a fraction of its range.
    pub frac: Option<Num>,
}

/// What the labels of a polar axis are.
#[derive(Clone, Copy, Debug, PartialEq, Eq, Structural)]
pub enum BleedLabelKind {
    /// Round the outside.
    OuterAngular,
    /// Round the hole.
    InnerAngular,
    /// Along a spoke.
    Radius,
}

/// A label that needs room outside the disk.
#[derive(Debug)]
pub struct BleedLabel {
    /// The break that it is for.
    pub at: usize,
    /// Which way from its tick it lies.
    pub direction: Point,
}

/// The labels of a polar axis that need room outside the disk.
#[derive(Debug)]
pub struct BleedAxis {
    /// The axis.
    pub axis: usize,
    /// What its labels are.
    pub kind: BleedLabelKind,
    /// Its labels.
    pub labels: Vec<BleedLabel>,
    /// Which way from the centre its title lies, where it has one. It is kept
    /// off by the labels, as far as `label_max` says.
    pub title: Option<Point>,
}

/// One thing that a plot asks of the layout.
#[derive(Debug)]
pub enum WireOp {
    /// The panel is to take a shape, where there is one.
    Aspect(PanelAspect),
    /// Room for a text.
    Text {
        /// Where.
        slot: Slot,
        /// What it is lined up with.
        align_to: AlignTo,
        /// The text.
        text: String,
    },
    /// Room for an axis.
    AxisRail {
        /// The side.
        side: AxisSide,
        /// Where.
        slot: Slot,
        /// The scale whose breaks it shows.
        scale_name: String,
    },
    /// Room for the title of an axis.
    AxisTitle {
        /// The side.
        side: AxisSide,
        /// Where.
        slot: Slot,
        /// The title.
        title: String,
    },
    /// Room for the labels of polar axes.
    Bleed {
        /// The side.
        side: AxisSide,
        /// Where.
        slot: Slot,
    },
    /// Room for the legends of a side, those that `legends_grouped_by_side`
    /// finds there.
    Legends {
        /// The side.
        on: LegendSide,
        /// Where.
        slot: Slot,
    },
    /// Room for a strip.
    Strip {
        /// The side.
        side: AxisSide,
        /// Where.
        slot: Slot,
        /// Its text.
        text: String,
    },
    /// The panel.
    Panel,
}

/// Room for a text, where there is one and it is drawn.
pub open spec fn text_ops(
    slot: Slot,
    align_to: AlignTo,
    shown: bool,
    text: Option<String>,
) -> Seq<WireOp> {
    match text {
        Some(text) => if shown {
            seq![WireOp::Text { slot, align_to, text }]
        } else {
            Seq::empty()
        },
        None => Seq::empty(),
    }
}

/// Room for an axis beside the panel: for its breaks where its scale is there,
/// and for its title where it lies beside the panel.
pub open spec fn axis_ops(axis: Axis, scales: Map<Seq<char>, Scale>, theme: PlotTheme) -> Seq<WireOp> {
    match axis.placement {
        AxisPlacement::Cartesian(side) => {
            let rail = match axis.scale_name {
                Some(scale_name) => if scales.contains_key(scale_name@) {
                    seq![WireOp::AxisRail { side, slot: axis_slot_of(side), scale_name }]
                } else {
                    Seq::empty()
                },
                None => Seq::empty(),
            };
            let title = match axis.title {
                Some(title) => if !theme.title_at(side).inside {
                    seq![WireOp::AxisTitle { side, slot: axis_title_slot_of(side), title }]
                } else {
                    Seq::empty()
                },
                None => Seq::empty(),
            };
            rail + title
        },
        _ => Seq::empty(),
    }
}

/// Room for the first `n` axes.
pub open spec fn axes_ops(
    axes: Seq<Axis>,
    scales: Map<Seq<char>, Scale>,
    theme: PlotTheme,
    n: nat,
) -> Seq<WireOp>
    decreases n,
{
    if n == 0 {
        Seq::empty()
    } else {
        axes_ops(axes, scales, theme, (n - 1) as nat) + axis_ops(axes[n - 1], scales, theme)
    }
}

/// Room for the labels of polar axes, on all four sides, where there are any.
pub open spec fn bleed_ops(axes: nat) -> Seq<WireOp> {
    if axes == 0 {
        Seq::empty()
    } else {
        Seq::new(
            4,
            |k: int|
                WireOp::Bleed {
                    side: sides_in_order()[k],
                    slot: axis_slot_of(sides_in_order()[k]),
                },
        )
    }
}

/// Room for the legends of the first `n` sides.
pub open spec fn legend_ops(legends: Seq<Legend>, n: nat) -> Seq<WireOp>
    decreases n,
{
    if n == 0 {
        Seq::empty()
    } else {
        let before = legend_ops(legends, (n - 1) as nat);
        let side = legend_sides()[n - 1];
        if members_on(legends, side.0, legends.len()).len() > 0 {
            before.push(WireOp::Legends { on: side.0, slot: side.1 })
        } else {
            before
        }
    }
}

/// Room for the strips of the first `n` sides, where they take any.
pub open spec fn strip_ops(plot: Plot, room: StripRoom, n: nat) -> Seq<WireOp>
    decreases n,
{
    if n == 0 {
        Seq::empty()
    } else {
        let before = strip_ops(plot, room, (n - 1) as nat);
        let side = sides_in_order()[n - 1];
        match plot.strips.at(side) {
            Some(text) => if room.at(side) {
                before.push(WireOp::Strip { side, slot: strip_slot_of(side), text })
            } else {
                before
            },
            None => before,
        }
    }
}

/// What a plot asks of the layout.
pub open spec fn wire_ops(
    plot: Plot,
    scales: Map<Seq<char>, Scale>,
    theme: PlotTheme,
    legends: Seq<Legend>,
    bleeding: nat,
) -> Seq<WireOp> {
    let aspect = match plot.aspect_wanted(scales) {
        Some(a) => seq![WireOp::Aspect(a)],
        None => Seq::empty(),
    };
    aspect + text_ops(Slot::Title, theme.align_to, theme.title, plot.title) + text_ops(
        Slot::Subtitle,
        theme.align_to,
        theme.subtitle,
        plot.subtitle,
    ) + text_ops(Slot::Caption, theme.align_to, theme.caption, plot.caption) + axes_ops(
        plot.axes@,
        scales,
        theme,
        plot.axes@.len(),
    ) + bleed_ops(bleeding) + legend_ops(legends, 4) + strip_ops(
        plot,
        theme.strips,
        4,
    ) + seq![WireOp::Panel]
}

/// Which way the labels along a spoke lie: off the sweep.
pub open spec fn spoke_direction(p: PolarProjection, theta_frac: Num) -> Point {
    let sign = if p.theta_start.less(p.theta_end) {
        e_int(1)
    } else {
        Expr::Ratio((-1int) as i64, 1)
    };
    let theta = p.theta_at(Expr::Lit(theta_frac));
    Point {
        x: e_mul(sign, Expr::Sin(std::sync::Arc::new(theta))),
        y: e_mul(sign, Expr::Cos(std::sync::Arc::new(theta))),
    }
}

/// Which way a direction points on screen, where pixels run downwards.
pub open spec fn outward(theta: Expr) -> Point {
    Point {
        x: Expr::Cos(std::sync::Arc::new(theta)),
        y: e_neg(Expr::Sin(std::sync::Arc::new(theta))),
    }
}

/// Which way the title of an axis round the outside lies: at the middle of the
/// sweep, and at the top of a full circle.
pub open spec fn title_direction(p: PolarProjection) -> Point {
    outward(
        e_select(
            p.c_full_circle(),
            Expr::Lit(Num { bits: QUARTER_TURN }),
            e_mul(e_add(Expr::Lit(p.theta_start), Expr::Lit(p.theta_end)), e_half()),
        ),
    )
}

/// Whether a break lies on the ring.
pub open spec fn on_ring(b: AxisBreak) -> bool {
    match b.frac {
        Some(f) => f.finite() && (Num { bits: 0 }).at_most(f) && f.at_most(Num { bits: ONE }),
        None => false,
    }
}

/// Whether a break has a label, along a spoke or round a ring.
pub open spec fn is_labelled(b: AxisBreak, placement: AxisPlacement) -> bool {
    !b.null && (placement is PolarRadius || on_ring(b))
}

/// Which way the label of a break lies.
pub open spec fn label_direction(p: PolarProjection, b: AxisBreak, placement: AxisPlacement) -> Point {
    match placement {
        AxisPlacement::PolarRadius { theta_frac } => spoke_direction(p, theta_frac),
        _ => outward(p.theta_at(Expr::Lit(b.frac->0))),
    }
}

/// The labels of the first `n` breaks.
pub open spec fn labels_of(
    p: PolarProjection,
    breaks: Seq<AxisBreak>,
    placement: AxisPlacement,
    n: nat,
) -> Seq<BleedLabel>
    decreases n,
{
    if n == 0 {
        Seq::empty()
    } else {
        let before = labels_of(p, breaks, placement, (n - 1) as nat);
        if is_labelled(breaks[n - 1], placement) {
            before.push(
                BleedLabel {
                    at: (n - 1) as usize,
                    direction: label_direction(p, breaks[n - 1], placement),
                },
            )
        } else {
            before
        }
    }
}

/// What the labels of an axis are; none beside the panel.
pub open spec fn kind_of(placement: AxisPlacement) -> Option<BleedLabelKind> {
    match placement {
        AxisPlacement::PolarAngular(PolarRing::Outer) => Some(BleedLabelKind::OuterAngular),
        AxisPlacement::PolarAngular(PolarRing::Inner) => Some(BleedLabelKind::InnerAngular),
        AxisPlacement::PolarRadius { .. } => Some(BleedLabelKind::Radius),
        AxisPlacement::Cartesian(_) => None,
    }
}

/// Whether the title of an axis needs room outside the disk: only one round the
/// outside does.
pub open spec fn title_bleeds(axis: Axis) -> bool {
    axis.title is Some && axis.placement == AxisPlacement::PolarAngular(PolarRing::Outer)
}

/// Whether an axis needs room outside the disk: it is a polar one, its scale is
/// there, and it has a label or a title there.
pub open spec fn bleeds(
    axis: Axis,
    scales: Map<Seq<char>, Scale>,
    p: PolarProjection,
    breaks: Seq<AxisBreak>,
) -> bool {
    &&& kind_of(axis.placement) is Some
    &&& axis.scale_name is Some
    &&& scales.contains_key(axis.scale_name->0@)
    &&& labels_of(p, breaks, axis.placement, breaks.len()).len() > 0 || title_bleeds(axis)
}

/// Whether `b` is what axis `i` needs room for.
pub open spec fn is_bleed(
    b: BleedAxis,
    axis: Axis,
    i: int,
    p: PolarProjection,
    breaks: Seq<AxisBreak>,
) -> bool {
    &&& b.axis == i
    &&& Some(b.kind) == kind_of(axis.placement)
    &&& b.labels@ == labels_of(p, breaks, axis.placement, breaks.len())
    &&& b.title == (if title_bleeds(axis) {
        Some(title_direction(p))
    } else {
        None
    })
}

/// Those of the first `n` axes that need room outside the disk, in order.
pub open spec fn bleeding_axes(
    axes: Seq<Axis>,
    scales: Map<Seq<char>, Scale>,
    p: PolarProjection,
    breaks: Seq<Vec<AxisBreak>>,
    n: nat,
) -> Seq<int>
    decreases n,
{
    if n == 0 {
        Seq::empty()
    } else {
        let before = bleeding_axes(axes, scales, p, breaks, (n - 1) as nat);
        if bleeds(axes[n - 1], scales, p, breaks[n - 1]@) {
            before.push(n - 1)
        } else {
            before
        }
    }
}

/// Whether `r` is what the first `n` axes need room for.
pub open spec fn are_bleeds(
    r: Seq<BleedAxis>,
    axes: Seq<Axis>,
    scales: Map<Seq<char>, Scale>,
    p: PolarProjection,
    breaks: Seq<Vec<AxisBreak>>,
    n: nat,
) -> bool {
    let rows = bleeding_axes(axes, scales, p, breaks, n);
    &&& r.len() == rows.len()
    &&& forall|k: int|
        0 <= k < r.len() ==> is_bleed(
            #[trigger] r[k],
            axes[rows[k]],
            rows[k],
            p,
            breaks[rows[k]]@,
        )
}

fn outward_from(theta: Expr) -> (r: Point)
    ensures
        r == outward(theta),
{
    let x = Expr::Cos(std::sync::Arc::new(theta.again()));
    let y = Expr::Sin(std::sync::Arc::new(theta)).negated();
    Point { x, y }
}

fn spoke_from(p: &PolarProjection, theta_frac: Num) -> (r: Point)
    ensures
        r == spoke_direction(*p, theta_frac),
{
    let sign = if p.theta_start.is_less(p.theta_end) {
        Expr::Ratio(1, 1)
    } else {
        Expr::Ratio(-1, 1)
    };
    let theta = p.theta_for_frac(Expr::Lit(theta_frac));
    Point {
        x: sign.again().times(Expr::Sin(std::sync::Arc::new(theta.again()))),
        y: sign.times(Expr::Cos(std::sync::Arc::new(theta))),
    }
}

fn labels_for(p: &PolarProjection, breaks: &Vec<AxisBreak>, placement: AxisPlacement) -> (r: Vec<
    BleedLabel,
>)
    requires
        kind_of(placement) is Some,
    ensures
        r@ == labels_of(*p, breaks@, placement, breaks@.len()),
{
    let mut r: Vec<BleedLabel> = Vec::new();
    let mut k: usize = 0;
    while k < breaks.len()
        invariant
            k <= breaks@.len(),
            kind_of(placement) is Some,
            r@ == labels_of(*p, breaks@, placement, k as nat),
        decreases breaks@.len() - k,
    {
        let b: AxisBreak = breaks[k];
        if !b.null {
            match placement {
                AxisPlacement::PolarRadius { theta_frac } => {
                    r.push(BleedLabel { at: k, direction: spoke_from(p, theta_frac) });
                },
                _ => {
                    if let Some(f) = b.frac {
                        if f.is_finite() && Num::zero().is_at_most(f) && f.is_at_most(
                            Num { bits: ONE },
                        ) {
                            assert(on_ring(b));
                            let theta = p.theta_for_frac(Expr::Lit(f));
                            r.push(BleedLabel { at: k, direction: outward_from(theta) });
                        }
                    }
                },
            }
        }
        k = k + 1;
    }
    r
}

fn bleed_of_axis(
    axis: &Axis,
    i: usize,
    registry: &ScaleRegistry,
    p: &PolarProjection,
    breaks: &Vec<AxisBreak>,
) -> (r: Option<BleedAxis>)
    ensures
        match r {
            Some(b) => bleeds(*axis, registry.scales@, *p, breaks@) && is_bleed(
                b,
                *axis,
                i as int,
                *p,
                breaks@,
            ),
            None => !bleeds(*axis, registry.scales@, *p, breaks@),
        },
{
    let kind = match axis.placement {
        AxisPlacement::PolarAngular(PolarRing::Outer) => BleedLabelKind::OuterAngular,
        AxisPlacement::PolarAngular(PolarRing::Inner) => BleedLabelKind::InnerAngular,
        AxisPlacement::PolarRadius { .. } => BleedLabelKind::Radius,
        AxisPlacement::Cartesian(_) => return None,
    };
    let name = match &axis.scale_name {
        Some(n) => n,
        None => return None,
    };
    if registry.get(name.as_str()).is_none() {
        return None;
    }
    let labels = labels_for(p, breaks, axis.placement);
    let outer = match axis.placement {
        AxisPlacement::PolarAngular(PolarRing::Outer) => true,
        _ => false,
    };
    let title = if outer && axis.title.is_some() {
        let middle = Expr::Lit(p.theta_start).plus(Expr::Lit(p.theta_end)).times(Expr::Ratio(1, 2));
        let theta = Expr::select(
            p.is_full_circle(),
            Expr::Lit(Num { bits: QUARTER_TURN }),
            middle,
        );
        Some(outward_from(theta))
    } else {
        None
    };
    if labels.len() > 0 || title.is_some() {
        Some(BleedAxis { axis: i, kind, labels, title })
    } else {
        None
    }
}

/// How large a label is, in pixels.
#[derive(Clone, Copy, Debug, PartialEq, Eq, Structural)]
pub struct LabelSize {
    /// How wide it is.
    pub width: Num,
    /// How tall it is.
    pub height: Num,
}

/// The larger of two lengths. One that is undefined counts for nothing.
pub open spec fn larger(a: Num, b: Num) -> Num {
    if a.less(b) {
        b
    } else {
        a
    }
}

/// The largest width or height of the first `n` labels.
pub open spec fn largest_of(sizes: Seq<LabelSize>, n: nat) -> Num
    decreases n,
{
    if n == 0 {
        Num { bits: 0 }
    } else {
        let s = sizes[n - 1];
        larger(larger(largest_of(sizes, (n - 1) as nat), s.width), s.height)
    }
}

/// How far the labels of an axis keep its title off: the largest width or height
/// of any.
pub fn label_max(sizes: &Vec<LabelSize>) -> (r: Num)
    ensures
        r == largest_of(sizes@, sizes@.len()),
{
    let mut r: Num = Num { bits: 0 };
    let mut k: usize = 0;
    while k < sizes.len()
        invariant
            k <= sizes@.len(),
            r == largest_of(sizes@, k as nat),
        decreases sizes@.len() - k,
    {
        let s: LabelSize = sizes[k];
        if r.is_less(s.width) {
            r = s.width;
        }
        if r.is_less(s.height) {
            r = s.height;
        }
        k = k + 1;
    }
    r
}

proof fn largest_grows(sizes: Seq<LabelSize>, m: nat, n: nat)
    requires
        m <= n,
    ensures
        !largest_of(sizes, m).undefined(),
        largest_of(sizes, m).at_most(largest_of(sizes, n)),
    decreases n,
{
    if m < n {
        largest_grows(sizes, m, (n - 1) as nat);
    } else if n > 0 {
        largest_grows(sizes, (n - 1) as nat, (n - 1) as nat);
    }
}

/// No label is wider or taller than what its axis keeps its title off by.
pub proof fn titles_clear_every_label(sizes: Seq<LabelSize>, i: int)
    requires
        0 <= i < sizes.len(),
    ensures
        ({
            let most = largest_of(sizes, sizes.len());
            let s = sizes[i];
            &&& (Num { bits: 0 }).at_most(most)
            &&& !s.width.undefined() ==> s.width.at_most(most)
            &&& !s.height.undefined() ==> s.height.at_most(most)
        }),
{
    largest_grows(sizes, 0, sizes.len());
    largest_grows(sizes, i as nat, i as nat);
    largest_grows(sizes, (i + 1) as nat, sizes.len());
}

fn push_text(out: &mut Vec<WireOp>, slot: Slot, align_to: AlignTo, shown: bool, text: &Option<String>)
    ensures
        final(out)@ == old(out)@ + text_ops(slot, align_to, shown, *text),
{
    if let Some(t) = text {
        if shown {
            out.push(WireOp::Text { slot, align_to, text: t.clone() });
        }
    }
    assert(out@ =~= old(out)@ + text_ops(slot, align_to, shown, *text));
}

impl Plot {
    /// Adds the panel, and nothing else, to what is asked of the layout.
    pub fn wire_panel(&self, out: &mut Vec<WireOp>)
        ensures
            final(out)@ == old(out)@.push(WireOp::Panel),
    {
        out.push(WireOp::Panel);
    }

    fn wire_strips(&self, room: &StripRoom, out: &mut Vec<WireOp>)
        ensures
            final(out)@ == old(out)@ + strip_ops(*self, *room, 4),
    {
        let ghost before = out@;
        let mut k: usize = 0;
        assert(out@ =~= before + strip_ops(*self, *room, 0));
        while k < 4
            invariant
                k <= 4,
                out@ == before + strip_ops(*self, *room, k as nat),
            decreases 4 - k,
        {
            let side = strip_side(k);
            if let Some(text) = self.strip_at(side) {
                let t = match side {
                    AxisSide::Top => self.strips.top.as_ref(),
                    AxisSide::Right => self.strips.right.as_ref(),
                    AxisSide::Bottom => self.strips.bottom.as_ref(),
                    AxisSide::Left => self.strips.left.as_ref(),
                };
                if let Some(t) = t {
                    if room.takes(side) {
                        out.push(WireOp::Strip { side, slot: strip_slot(side), text: t.clone() });
                    }
                }
            }
            k = k + 1;
            assert(out@ =~= before + strip_ops(*self, *room, k as nat));
        }
    }

    fn wire_axes(&self, registry: &ScaleRegistry, theme: &PlotTheme, out: &mut Vec<WireOp>)
        ensures
            final(out)@ == old(out)@ + axes_ops(
                self.axes@,
                registry.scales@,
                *theme,
                self.axes@.len(),
            ),
    {
        let ghost before = out@;
        let mut k: usize = 0;
        assert(out@ =~= before + axes_ops(self.axes@, registry.scales@, *theme, 0));
        while k < self.axes.len()
            invariant
                k <= self.axes@.len(),
                out@ == before + axes_ops(self.axes@, registry.scales@, *theme, k as nat),
            decreases self.axes@.len() - k,
        {
            let ghost so_far = out@;
            let axis = &self.axes[k];
            if let AxisPlacement::Cartesian(side) = axis.placement {
                if let Some(name) = &axis.scale_name {
                    if registry.get(name.as_str()).is_some() {
                        let slot = cartesian_axis_slot(side);
                        out.push(WireOp::AxisRail { side, slot, scale_name: name.clone() });
                    }
                }
                if let Some(title) = &axis.title {
                    if !theme.axis_title(side).inside {
                        let slot = cartesian_axis_title_slot(side);
                        out.push(WireOp::AxisTitle { side, slot, title: title.clone() });
                    }
                }
            }
            assert(out@ =~= so_far + axis_ops(self.axes@[k as int], registry.scales@, *theme));
            k = k + 1;
            assert(out@ =~= before + axes_ops(self.axes@, registry.scales@, *theme, k as nat));
        }
    }

    /// What polar axes need room for outside the disk. `breaks` are the breaks
    /// of each axis, as its scale gives them.
    pub fn wire_chrome_bleed(&self, registry: &ScaleRegistry, breaks: &Vec<Vec<AxisBreak>>) -> (r:
        Vec<BleedAxis>)
        requires
            breaks@.len() == self.axes@.len(),
        ensures
            match self.projection {
                Projection::Polar(p) => are_bleeds(
                    r@,
                    self.axes@,
                    registry.scales@,
                    p,
                    breaks@,
                    self.axes@.len(),
                ),
                Projection::Cartesian => r@.len() == 0,
            },
    {
        let mut r: Vec<BleedAxis> = Vec::new();
        let p = match &self.projection {
            Projection::Polar(p) => p,
            Projection::Cartesian => return r,
        };
        let mut k: usize = 0;
        while k < self.axes.len()
            invariant
                k <= self.axes@.len(),
                breaks@.len() == self.axes@.len(),
                are_bleeds(r@, self.axes@, registry.scales@, *p, breaks@, k as nat),
            decreases self.axes@.len() - k,
        {
            let ghost before = r@;
            let ghost rows = bleeding_axes(self.axes@, registry.scales@, *p, breaks@, k as nat);
            if let Some(b) = bleed_of_axis(&self.axes[k], k, registry, p, &breaks[k]) {
                r.push(b);
                let ghost after = bleeding_axes(
                    self.axes@,
                    registry.scales@,
                    *p,
                    breaks@,
                    (k + 1) as nat,
                );
                assert(after == rows.push(k as int));
                assert forall|j: int| 0 <= j < r@.len() implies is_bleed(
                    #[trigger] r@[j],
                    self.axes@[after[j]],
                    after[j],
                    *p,
                    breaks@[after[j]]@,
                ) by {
                    if j < before.len() {
                        assert(r@[j] == before[j]);
                        assert(after[j] == rows[j]);
                    }
                }
            }
            assert(are_bleeds(r@, self.axes@, registry.scales@, *p, breaks@, (k + 1) as nat));
            k = k + 1;
        }
        r
    }

    fn wire_bleed(&self, bleeding: usize, out: &mut Vec<WireOp>)
        ensures
            final(out)@ == old(out)@ + bleed_ops(bleeding as nat),
    {
        let ghost before = out@;
        if bleeding == 0 {
            assert(out@ =~= before + bleed_ops(0));
            return;
        }
        let mut k: usize = 0;
        assert(out@ =~= before + bleed_ops(bleeding as nat).take(0));
        while k < 4
            invariant
                k <= 4,
                bleeding > 0,
                out@ == before + bleed_ops(bleeding as nat).take(k as int),
            decreases 4 - k,
        {
            let side = strip_side(k);
            out.push(WireOp::Bleed { side, slot: cartesian_axis_slot(side) });
            k = k + 1;
            assert(out@ =~= before + bleed_ops(bleeding as nat).take(k as int));
        }
        assert(bleed_ops(bleeding as nat).take(4) =~= bleed_ops(bleeding as nat));
    }

    fn wire_legends(&self, legends: &Vec<Legend>, out: &mut Vec<WireOp>)
        ensures
            final(out)@ == old(out)@ + legend_ops(legends@, 4),
    {
        let ghost before = out@;
        let groups = legends_grouped_by_side(legends);
        let mut k: usize = 0;
        assert(out@ =~= before + legend_ops(legends@, 0));
        while k < groups.len()
            invariant
                k <= groups@.len() == 4,
                forall|j: int|
                    0 <= j < 4 ==> is_side_group(#[trigger] groups@[j], legends@, legend_sides()[j]),
                out@ == before + legend_ops(legends@, k as nat),
            decreases groups@.len() - k,
        {
            assert(is_side_group(groups@[k as int], legends@, legend_sides()[k as int]));
            if groups[k].members.len() > 0 {
                out.push(WireOp::Legends { on: groups[k].side, slot: groups[k].slot });
            }
            k = k + 1;
            assert(out@ =~= before + legend_ops(legends@, k as nat));
        }
    }

    /// What the plot asks of the layout, in order, and what its polar axes need
    /// room for. Axes whose scales are not there ask for nothing. `legends` are
    /// the legends as they are drawn, those that share rows drawn together, and
    /// `breaks` are the breaks of each axis, as its scale gives them.
    pub fn wire(
        &self,
        registry: &ScaleRegistry,
        theme: &PlotTheme,
        legends: &Vec<Legend>,
        breaks: &Vec<Vec<AxisBreak>>,
    ) -> (r: (Vec<WireOp>, Vec<BleedAxis>))
        requires
            breaks@.len() == self.axes@.len(),
        ensures
            r.0@ == wire_ops(*self, registry.scales@, *theme, legends@, r.1@.len()),
            match self.projection {
                Projection::Polar(p) => are_bleeds(
                    r.1@,
                    self.axes@,
                    registry.scales@,
                    p,
                    breaks@,
                    self.axes@.len(),
                ),
                Projection::Cartesian => r.1@.len() == 0,
            },
    {
        let bleeds = self.wire_chrome_bleed(registry, breaks);
        let bleeding: usize = bleeds.len();
        let mut out: Vec<WireOp> = Vec::new();
        if let Some(a) = self.desired_panel_aspect(registry) {
            out.push(WireOp::Aspect(a));
        }
        let ghost aspect = match self.aspect_wanted(registry.scales@) {
            Some(a) => seq![WireOp::Aspect(a)],
            None => Seq::empty(),
        };
        assert(out@ =~= aspect);
        push_text(&mut out, Slot::Title, theme.align_to, theme.title, &self.title);
        push_text(&mut out, Slot::Subtitle, theme.align_to, theme.subtitle, &self.subtitle);
        push_text(&mut out, Slot::Caption, theme.align_to, theme.caption, &self.caption);
        self.wire_axes(registry, theme, &mut out);
        self.wire_bleed(bleeding, &mut out);
        self.wire_legends(legends, &mut out);
        self.wire_strips(&theme.strips, &mut out);
        self.wire_panel(&mut out);
        assert(out@ =~= wire_ops(*self, registry.scales@, *theme, legends@, bleeding as nat));
        (out, bleeds)
    }
}

/// Whether nothing asks for the panel.
pub open spec fn no_panel(s: Seq<WireOp>) -> bool {
    forall|k: int| 0 <= k < s.len() ==> !((#[trigger] s[k]) is Panel)
}

proof fn neither_asks(a: Seq<WireOp>, b: Seq<WireOp>)
    requires
        no_panel(a),
        no_panel(b),
    ensures
        no_panel(a + b),
{
    assert forall|k: int| 0 <= k < (a + b).len() implies !((#[trigger] (a + b)[k]) is Panel) by {
        if k < a.len() {
            assert((a + b)[k] == a[k]);
        } else {
            assert((a + b)[k] == b[k - a.len()]);
        }
    }
}

proof fn axes_ask_for_no_panel(
    axes: Seq<Axis>,
    scales: Map<Seq<char>, Scale>,
    theme: PlotTheme,
    n: nat,
)
    ensures
        no_panel(axes_ops(axes, scales, theme, n)),
    decreases n,
{
    if n > 0 {
        axes_ask_for_no_panel(axes, scales, theme, (n - 1) as nat);
        assert(no_panel(axis_ops(axes[n - 1], scales, theme)));
        neither_asks(
            axes_ops(axes, scales, theme, (n - 1) as nat),
            axis_ops(axes[n - 1], scales, theme),
        );
    }
}

proof fn legends_ask_for_no_panel(legends: Seq<Legend>, n: nat)
    ensures
        no_panel(legend_ops(legends, n)),
    decreases n,
{
    if n > 0 {
        legends_ask_for_no_panel(legends, (n - 1) as nat);
    }
}

proof fn strips_ask_for_no_panel(plot: Plot, room: StripRoom, n: nat)
    ensures
        no_panel(strip_ops(plot, room, n)),
    decreases n,
{
    if n > 0 {
        strips_ask_for_no_panel(plot, room, (n - 1) as nat);
    }
}

/// The panel comes last, and once.
pub proof fn panel_comes_last(
    plot: Plot,
    scales: Map<Seq<char>, Scale>,
    theme: PlotTheme,
    legends: Seq<Legend>,
    bleeding: nat,
)
    ensures
        ({
            let s = wire_ops(plot, scales, theme, legends, bleeding);
            &&& s.len() > 0
            &&& s.last() is Panel
            &&& no_panel(s.drop_last())
        }),
{
    let aspect = match plot.aspect_wanted(scales) {
        Some(a) => seq![WireOp::Aspect(a)],
        None => Seq::empty(),
    };
    let title = text_ops(Slot::Title, theme.align_to, theme.title, plot.title);
    let subtitle = text_ops(Slot::Subtitle, theme.align_to, theme.subtitle, plot.subtitle);
    let caption = text_ops(Slot::Caption, theme.align_to, theme.caption, plot.caption);
    let axes = axes_ops(plot.axes@, scales, theme, plot.axes@.len());
    let bleed = bleed_ops(bleeding);
    let sides = legend_ops(legends, 4);
    let strips = strip_ops(plot, theme.strips, 4);
    axes_ask_for_no_panel(plot.axes@, scales, theme, plot.axes@.len());
    legends_ask_for_no_panel(legends, 4);
    strips_ask_for_no_panel(plot, theme.strips, 4);
    assert(no_panel(aspect) && no_panel(title) && no_panel(subtitle) && no_panel(caption));
    assert(no_panel(bleed));
    let a = aspect + title;
    neither_asks(aspect, title);
    let b = a + subtitle;
    neither_asks(a, subtitle);
    let c = b + caption;
    neither_asks(b, caption);
    let d = c + axes;
    neither_asks(c, axes);
    let e = d + bleed;
    neither_asks(d, bleed);
    let f = e + sides;
    neither_asks(e, sides);
    let g = f + strips;
    neither_asks(f, strips);
    let s = wire_ops(plot, scales, theme, legends, bleeding);
    assert(s == g + seq![WireOp::Panel]);
    assert(s.drop_last() =~= g);
}

} // verus!
