//! What a plot draws, and in which order.

use vstd::prelude::*;

use crate::expr::{
    c_and, c_ge, c_not, c_positive, e_add, e_div, e_int, e_max, e_mul, e_px, e_sub, Cond, Expr, Quantity,
};
use crate::ids::GeomId;
use crate::num::Num;
use crate::pick::PickId;
use crate::plot::any_geom::AnyGeom;
use crate::plot::aspect::{Scale, ScaleRegistry};
use crate::plot::chrome::{
    axis_slot_of, axis_title_slot_of, cartesian_axis_slot, cartesian_axis_title_slot,
    groups_of, is_led, is_side_group, legend_sides, legends_grouped_by_side,
    legends_grouped_in_panel, members_of, members_on, sides_in_order, strip_side, strip_slot,
    strip_slot_of, Anchor, Axis, AxisPlacement, Legend, LegendSide, PanelGroup,
};
use crate::plot::layout::{Layout, SlotRect};
use crate::plot::wire::{AxisTitleTheme, PlotTheme};
use crate::plot::{is_scale_named, scale_named, Plot, ScaleChoice};
use crate::projection::Projection;
use crate::scene::{Cap, Join, Op, Paint, Path, Pen, Rect, Step, Xform};
use crate::slot::{AxisSide, Slot};
use crate::value::Color;

verus! {

/// What is drawn behind a plot.
#[derive(Clone, Copy, Debug)]
pub struct PlotBackground {
    /// Its fill.
    pub fill: Option<Color>,
    /// The colour of its border.
    pub color: Color,
    /// How wide its border is, in points.
    pub linewidth_pt: Num,
    /// How far its corners are rounded, in points.
    pub corner_radius_pt: Num,
}

/// A rectangle of the layout, to draw into.
pub open spec fn rect_at(r: SlotRect) -> Rect {
    Rect {
        x0: Expr::Lit(r.x0),
        y0: Expr::Lit(r.y0),
        x1: Expr::Lit(r.x1),
        y1: Expr::Lit(r.y1),
    }
}

fn rect_for(r: &SlotRect) -> (e: Rect)
    ensures
        e == rect_at(*r),
{
    Rect {
        x0: Expr::Lit(r.x0),
        y0: Expr::Lit(r.y0),
        x1: Expr::Lit(r.x1),
        y1: Expr::Lit(r.y1),
    }
}

/// How far the corners of a background are rounded, in pixels.
pub open spec fn background_corner(b: PlotBackground) -> Expr {
    e_max(e_px(Expr::Lit(b.corner_radius_pt)), e_int(0))
}

/// The border of a background.
pub open spec fn border_pen(b: PlotBackground) -> Pen {
    Pen {
        width: e_px(Expr::Lit(b.linewidth_pt)),
        cap: Cap::Butt,
        join: Join::Miter,
        pattern: None,
        dash_offset: e_int(0),
    }
}

/// What is drawn of a background: its fill, and its border where it has any
/// width, with round corners where they are rounded. Hits pass through it.
pub open spec fn background_steps(b: PlotBackground, r: SlotRect) -> Seq<Step> {
    let corner = background_corner(b);
    let round = c_positive(corner);
    let fill = match b.fill {
        Some(color) => {
            let paint = Paint { color, opacity: None };
            seq![
                Step {
                    when: round,
                    op: Op::Fill {
                        path: Path::RoundedRect(rect_at(r), corner),
                        xform: Xform::Identity,
                        paint,
                        pick: PickId::Skip,
                    },
                },
                Step {
                    when: c_not(round),
                    op: Op::Fill {
                        path: Path::Rect(rect_at(r)),
                        xform: Xform::Identity,
                        paint,
                        pick: PickId::Skip,
                    },
                },
            ]
        },
        None => Seq::empty(),
    };
    let border = if b.linewidth_pt.above_zero() {
        let paint = Paint { color: b.color, opacity: None };
        seq![
            Step {
                when: round,
                op: Op::Stroke {
                    path: Path::RoundedRect(rect_at(r), corner),
                    pen: border_pen(b),
                    xform: Xform::Identity,
                    paint,
                    pick: PickId::Skip,
                },
            },
            Step {
                when: c_not(round),
                op: Op::Stroke {
                    path: Path::Rect(rect_at(r)),
                    pen: border_pen(b),
                    xform: Xform::Identity,
                    paint,
                    pick: PickId::Skip,
                },
            },
        ]
    } else {
        Seq::empty()
    };
    fill + border
}

fn draw_background(b: &PlotBackground, r: &SlotRect) -> (s: Vec<Step>)
    ensures
        s@ == background_steps(*b, *r),
{
    let mut out: Vec<Step> = Vec::new();
    let corner = Expr::Lit(b.corner_radius_pt).in_px().at_least(Expr::Ratio(0, 1));
    let round = corner.is_positive();
    if let Some(color) = b.fill {
        let paint = Paint { color, opacity: None };
        out.push(
            Step {
                when: round.again(),
                op: Op::Fill {
                    path: Path::RoundedRect(rect_for(r), corner.again()),
                    xform: Xform::Identity,
                    paint,
                    pick: PickId::Skip,
                },
            },
        );
        out.push(
            Step {
                when: round.again().negated(),
                op: Op::Fill {
                    path: Path::Rect(rect_for(r)),
                    xform: Xform::Identity,
                    paint,
                    pick: PickId::Skip,
                },
            },
        );
    }
    if b.linewidth_pt.is_above_zero() {
        let paint = Paint { color: b.color, opacity: None };
        let pen = Pen {
            width: Expr::Lit(b.linewidth_pt).in_px(),
            cap: Cap::Butt,
            join: Join::Miter,
            pattern: None,
            dash_offset: Expr::Ratio(0, 1),
        };
        out.push(
            Step {
                when: round.again(),
                op: Op::Stroke {
                    path: Path::RoundedRect(rect_for(r), corner),
                    pen: pen.again(),
                    xform: Xform::Identity,
                    paint,
                    pick: PickId::Skip,
                },
            },
        );
        out.push(
            Step {
                when: round.negated(),
                op: Op::Stroke {
                    path: Path::Rect(rect_for(r)),
                    pen,
                    xform: Xform::Identity,
                    paint,
                    pick: PickId::Skip,
                },
            },
        );
    }
    assert(out@ =~= background_steps(*b, *r));
    out
}

/// The panel of a plot, where it has room.
pub open spec fn open_panel(plot: Plot, layout: Layout) -> Option<SlotRect> {
    match layout.rect_of(plot.patch_id@, Slot::Panel) {
        Some(r) => if r.shut() {
            None
        } else {
            Some(r)
        },
        None => None,
    }
}

/// What the panel itself is drawn with: its background, grid and outline.
#[derive(Debug)]
pub struct PanelChrome {
    /// The panel.
    pub panel: SlotRect,
    /// The scale of the projection's first channel.
    pub channel_0: Option<ScaleChoice>,
    /// The scale of its second.
    pub channel_1: Option<ScaleChoice>,
}

/// Whether `c` is what a panel is drawn with: the scales are those of the
/// projection's two channels.
pub open spec fn is_panel_chrome(
    c: PanelChrome,
    plot: Plot,
    layout: Layout,
    scales: Map<Seq<char>, Scale>,
    overlaid: Option<Seq<char>>,
) -> bool {
    let (a, b) = match plot.projection {
        Projection::Cartesian => ("x"@, "y"@),
        Projection::Polar(p) => (p.angle_channel@, p.radius_channel@),
    };
    &&& open_panel(plot, layout) == Some(c.panel)
    &&& plot.is_scale_for(c.channel_0, scales, overlaid, a)
    &&& plot.is_scale_for(c.channel_1, scales, overlaid, b)
}

/// Whether `after` is `before` with its geoms drawn: their diffs are up to date
/// where the plot tracks identity, and nothing has changed since.
pub open spec fn is_drawn(after: Plot, before: Plot) -> bool {
    &&& before.track_identity ==> all_rediffed(after.geoms@, before.geoms@)
    &&& !before.track_identity ==> after.geoms == before.geoms
    &&& after == (Plot { geoms: after.geoms, dirty: false, ..before })
}

/// One thing to draw for the geoms.
#[derive(Clone, Copy, Debug, PartialEq, Eq, Structural)]
pub enum GeomOp {
    /// From here on, nothing shows outside the outline of the panel.
    PushOutline,
    /// A geom.
    Geom(GeomId),
    /// Undoes the clip.
    PopLayer,
}

/// What is drawn for the geoms: each in its turn, clipped to the panel or not.
pub open spec fn geom_ops(geoms: Seq<(GeomId, AnyGeom)>, clip: bool) -> Seq<GeomOp> {
    let all = Seq::new(geoms.len(), |k: int| GeomOp::Geom(geoms[k].0));
    if clip {
        seq![GeomOp::PushOutline] + all + seq![GeomOp::PopLayer]
    } else {
        all
    }
}

/// Whether `after` are the geoms of `before` with their diffs up to date.
pub open spec fn all_rediffed(
    after: Seq<(GeomId, AnyGeom)>,
    before: Seq<(GeomId, AnyGeom)>,
) -> bool {
    &&& after.len() == before.len()
    &&& forall|k: int|
        #![trigger after[k]]
        #![trigger before[k]]
        0 <= k < before.len() ==> after[k].0 == before[k].0 && after[k].1.rediffed_from(before[k].1)
}

/// An axis to draw.
#[derive(Debug)]
pub struct AxisDraw {
    /// The axis.
    pub axis: usize,
    /// Where it stands.
    pub placement: AxisPlacement,
    /// The rectangle of its own, beside the panel; none in the panel.
    pub rect: Option<SlotRect>,
    /// The panel.
    pub panel: SlotRect,
    /// The scale whose breaks it shows.
    pub scale: ScaleChoice,
}

/// Whether axis `i` is drawn, and `d` is how: the panel is there, its scale is
/// there, and beside the panel it has a rectangle of its own. An overlay takes
/// the place of a scale only there.
pub open spec fn is_axis_draw(
    d: Option<AxisDraw>,
    plot: Plot,
    layout: Layout,
    scales: Map<Seq<char>, Scale>,
    overlaid: Option<Seq<char>>,
    i: int,
) -> bool {
    let axis = plot.axes@[i];
    let panel = layout.rect_of(plot.patch_id@, Slot::Panel);
    let beside = axis.placement is Cartesian;
    let rect = match axis.placement {
        AxisPlacement::Cartesian(side) => layout.rect_of(plot.patch_id@, axis_slot_of(side)),
        _ => None,
    };
    let over = if beside {
        overlaid
    } else {
        None
    };
    let found = axis.scale_name is Some && (over == Some(axis.scale_name->0@)
        || scales.contains_key(axis.scale_name->0@));
    match d {
        Some(d) => {
            &&& d.axis == i
            &&& d.placement == axis.placement
            &&& panel == Some(d.panel)
            &&& axis.scale_name is Some
            &&& is_scale_named(Some(d.scale), scales, over, axis.scale_name->0@)
            &&& d.rect == rect
            &&& beside ==> rect is Some
            &&& !beside ==> plot.projection is Polar
        },
        None => {
            ||| panel is None
            ||| !found
            ||| (beside && rect is None)
            ||| (!beside && plot.projection is Cartesian)
        },
    }
}

/// One thing to draw around a panel.
#[derive(Debug)]
pub enum ChromeOp {
    /// An axis.
    Axis(AxisDraw),
    /// A strip.
    Strip {
        /// The side.
        side: AxisSide,
        /// Where.
        rect: SlotRect,
        /// Its text.
        text: String,
    },
    /// The legends of a side.
    Legends {
        /// The side.
        on: LegendSide,
        /// Where.
        rect: SlotRect,
        /// Their places among the legends.
        members: Vec<usize>,
    },
    /// The legends that hang on one point of the panel.
    PanelLegends {
        /// The panel.
        panel: SlotRect,
        /// The point.
        anchor: Anchor,
        /// How far they stay off the edges, in pixels.
        inset: Expr,
        /// Their places among the legends.
        members: Vec<usize>,
        /// Whether they have any size, as they were measured.
        when: Cond,
    },
    /// A text of the plot.
    Text {
        /// Which one.
        slot: Slot,
        /// Where.
        rect: SlotRect,
        /// The text.
        text: String,
    },
    /// The title of an axis, beside the panel.
    TitleBeside {
        /// The side.
        side: AxisSide,
        /// Where.
        rect: SlotRect,
        /// The title.
        title: String,
    },
    /// The title of an axis, in the panel, turned by an angle where nothing else
    /// is said.
    TitleInside {
        /// The side.
        side: AxisSide,
        /// Where.
        within: Rect,
        /// The title.
        title: String,
        /// The angle, in degrees.
        baseline_deg: i16,
    },
}

/// How far the title of an axis is turned where nothing else is said, in
/// degrees.
pub open spec fn baseline_of(side: AxisSide) -> i16 {
    match side {
        AxisSide::Top => 0,
        AxisSide::Bottom => 0,
        AxisSide::Left => (-90int) as i16,
        AxisSide::Right => 90,
    }
}

/// Margins in pixels.
pub open spec fn margins_px(a: Num, b: Num) -> Expr {
    e_mul(
        e_add(Expr::Lit(a), Expr::Lit(b)),
        e_div(Expr::Var(Quantity::Dpi), e_int(72)),
    )
}

/// Where the title of an axis lies in the panel: along the edge of its side, as
/// thick as the title and its margins.
pub open spec fn inside_strip(side: AxisSide, panel: SlotRect, t: AxisTitleTheme) -> Rect {
    let r = rect_at(panel);
    let h = e_add(Expr::Var(Quantity::TextHeight), margins_px(t.margin_top, t.margin_bottom));
    let w = e_add(Expr::Var(Quantity::TextWidth), margins_px(t.margin_left, t.margin_right));
    match side {
        AxisSide::Bottom => Rect { y0: e_sub(r.y1, h), ..r },
        AxisSide::Top => Rect { y1: e_add(r.y0, h), ..r },
        AxisSide::Left => Rect { x1: e_add(r.x0, w), ..r },
        AxisSide::Right => Rect { x0: e_sub(r.x1, w), ..r },
    }
}

fn margins_for(a: Num, b: Num) -> (r: Expr)
    ensures
        r == margins_px(a, b),
{
    Expr::Lit(a).plus(Expr::Lit(b)).times(Expr::Var(Quantity::Dpi).over(Expr::Ratio(72, 1)))
}

/// Where the title of an axis lies in the panel. The title is measured as it is
/// turned.
pub fn title_strip(side: AxisSide, panel: &SlotRect, t: &AxisTitleTheme) -> (r: Rect)
    ensures
        r == inside_strip(side, *panel, *t),
{
    let r = rect_for(panel);
    let h = Expr::Var(Quantity::TextHeight).plus(margins_for(t.margin_top, t.margin_bottom));
    let w = Expr::Var(Quantity::TextWidth).plus(margins_for(t.margin_left, t.margin_right));
    match side {
        AxisSide::Bottom => Rect { y0: r.y1.again().minus(h), x0: r.x0, x1: r.x1, y1: r.y1 },
        AxisSide::Top => Rect { y1: r.y0.again().plus(h), x0: r.x0, x1: r.x1, y0: r.y0 },
        AxisSide::Left => Rect { x1: r.x0.again().plus(w), x0: r.x0, y0: r.y0, y1: r.y1 },
        AxisSide::Right => Rect { x0: r.x1.again().minus(w), x1: r.x1, y0: r.y0, y1: r.y1 },
    }
}

/// The strips of the first `n` sides, where they have a rectangle.
pub open spec fn strip_draws(plot: Plot, layout: Layout, n: nat) -> Seq<ChromeOp>
    decreases n,
{
    if n == 0 {
        Seq::empty()
    } else {
        let before = strip_draws(plot, layout, (n - 1) as nat);
        let side = sides_in_order()[n - 1];
        match (plot.strips.at(side), layout.rect_of(plot.patch_id@, strip_slot_of(side))) {
            (Some(text), Some(rect)) => before.push(ChromeOp::Strip { side, rect, text }),
            _ => before,
        }
    }
}

/// A text of the plot, where it has a rectangle.
pub open spec fn text_draws(
    plot: Plot,
    layout: Layout,
    slot: Slot,
    shown: bool,
    text: Option<String>,
) -> Seq<ChromeOp> {
    match (text, layout.rect_of(plot.patch_id@, slot)) {
        (Some(text), Some(rect)) => if shown {
            seq![ChromeOp::Text { slot, rect, text }]
        } else {
            Seq::empty()
        },
        _ => Seq::empty(),
    }
}

/// The title of an axis, where it is drawn.
pub open spec fn title_draws(plot: Plot, layout: Layout, theme: PlotTheme, axis: Axis) -> Seq<
    ChromeOp,
> {
    match (axis.title, axis.placement) {
        (Some(title), AxisPlacement::Cartesian(side)) => {
            let t = theme.title_at(side);
            if !t.shown {
                Seq::empty()
            } else if t.inside {
                match layout.rect_of(plot.patch_id@, Slot::Panel) {
                    Some(panel) => seq![
                        ChromeOp::TitleInside {
                            side,
                            within: inside_strip(side, panel, t),
                            title,
                            baseline_deg: baseline_of(side),
                        },
                    ],
                    None => Seq::empty(),
                }
            } else {
                match layout.rect_of(plot.patch_id@, axis_title_slot_of(side)) {
                    Some(rect) => seq![ChromeOp::TitleBeside { side, rect, title }],
                    None => Seq::empty(),
                }
            }
        },
        _ => Seq::empty(),
    }
}

/// The titles of the first `n` axes.
pub open spec fn titles_draws(plot: Plot, layout: Layout, theme: PlotTheme, n: nat) -> Seq<ChromeOp>
    decreases n,
{
    if n == 0 {
        Seq::empty()
    } else {
        titles_draws(plot, layout, theme, (n - 1) as nat) + title_draws(
            plot,
            layout,
            theme,
            plot.axes@[n - 1],
        )
    }
}

/// Whether `ops` are the legends of the first `n` sides, for each side with
/// legends and a rectangle one.
pub open spec fn are_legend_draws(
    ops: Seq<ChromeOp>,
    plot: Plot,
    layout: Layout,
    legends: Seq<Legend>,
    n: nat,
) -> bool
    decreases n,
{
    if n == 0 {
        ops.len() == 0
    } else {
        let (on, slot) = legend_sides()[n - 1];
        let group = members_on(legends, on, legends.len());
        match layout.rect_of(plot.patch_id@, slot) {
            Some(rect) => if group.len() > 0 {
                &&& ops.len() > 0
                &&& are_legend_draws(ops.drop_last(), plot, layout, legends, (n - 1) as nat)
                &&& ops.last() matches ChromeOp::Legends { on: o, rect: r, members } && o == on
                    && r == rect && members@ == group
            } else {
                are_legend_draws(ops, plot, layout, legends, (n - 1) as nat)
            },
            None => are_legend_draws(ops, plot, layout, legends, (n - 1) as nat),
        }
    }
}

/// Whether `op` draws a group of legends in the panel, where it has any size.
pub open spec fn is_panel_draw(op: ChromeOp, panel: SlotRect, g: PanelGroup) -> bool {
    op matches ChromeOp::PanelLegends { panel: p, anchor, inset, members, when } && p == panel
        && anchor == g.anchor && inset == e_px(Expr::Lit(g.inset_pt)) && members@ == g.members@
        && when == c_and(
        c_not(c_ge(e_int(0), Expr::Var(Quantity::TextWidth))),
        c_not(c_ge(e_int(0), Expr::Var(Quantity::TextHeight))),
    )
}

/// Whether `ops` are the groups of legends in the panel, each in its turn, where
/// the panel is there.
pub open spec fn are_panel_draws(
    ops: Seq<ChromeOp>,
    plot: Plot,
    layout: Layout,
    groups: Seq<PanelGroup>,
) -> bool {
    match layout.rect_of(plot.patch_id@, Slot::Panel) {
        Some(panel) => {
            &&& ops.len() == groups.len()
            &&& forall|k: int|
                0 <= k < ops.len() ==> is_panel_draw(#[trigger] ops[k], panel, groups[k])
        },
        None => ops.len() == 0,
    }
}

/// Whether `groups` are the legends in the panel, grouped.
pub open spec fn are_panel_groups(
    groups: Seq<PanelGroup>,
    legends: Seq<Legend>,
    agree: Seq<Vec<bool>>,
) -> bool {
    &&& members_of(groups) == groups_of(legends, agree, legends.len())
    &&& forall|k: int| 0 <= k < groups.len() ==> is_led(#[trigger] groups[k], legends)
}

/// Whether `ops` are the first `n` axes, for each that is drawn one.
pub open spec fn are_axis_draws(
    ops: Seq<ChromeOp>,
    plot: Plot,
    layout: Layout,
    scales: Map<Seq<char>, Scale>,
    overlaid: Option<Seq<char>>,
    n: nat,
) -> bool
    decreases n,
{
    if n == 0 {
        ops.len() == 0
    } else {
        ||| {
            &&& is_axis_draw(None, plot, layout, scales, overlaid, n - 1)
            &&& are_axis_draws(ops, plot, layout, scales, overlaid, (n - 1) as nat)
        }
        ||| {
            &&& ops.len() > 0
            &&& ops.last() matches ChromeOp::Axis(d) && is_axis_draw(
                Some(d),
                plot,
                layout,
                scales,
                overlaid,
                n - 1,
            )
            &&& are_axis_draws(
                ops.drop_last(),
                plot,
                layout,
                scales,
                overlaid,
                (n - 1) as nat,
            )
        }
    }
}

/// The texts of the plot: its title, its subtitle and its caption.
pub open spec fn texts_draws(plot: Plot, layout: Layout, theme: PlotTheme) -> Seq<ChromeOp> {
    text_draws(plot, layout, Slot::Title, theme.title, plot.title) + text_draws(
        plot,
        layout,
        Slot::Subtitle,
        theme.subtitle,
        plot.subtitle,
    ) + text_draws(plot, layout, Slot::Caption, theme.caption, plot.caption)
}

/// What is drawn around a panel, in order.
pub struct ChromePlan {
    /// The axes.
    pub axes: Vec<ChromeOp>,
    /// The strips.
    pub strips: Vec<ChromeOp>,
    /// The legends beside the panel.
    pub legends: Vec<ChromeOp>,
    /// The legends in the panel.
    pub panel_legends: Vec<ChromeOp>,
    /// The texts of the plot.
    pub texts: Vec<ChromeOp>,
    /// The titles of the axes.
    pub axis_titles: Vec<ChromeOp>,
}

fn push_all(out: &mut Vec<ChromeOp>, more: Vec<ChromeOp>)
    ensures
        final(out)@ == old(out)@ + more@,
{
    let mut more = more;
    out.append(&mut more);
}

impl ChromePlan {
    /// Everything that is drawn, in order.
    pub fn in_order(self) -> (r: Vec<ChromeOp>)
        ensures
            r@ == self.axes@ + self.strips@ + self.legends@ + self.panel_legends@ + self.texts@
                + self.axis_titles@,
    {
        let mut r = self.axes;
        push_all(&mut r, self.strips);
        push_all(&mut r, self.legends);
        push_all(&mut r, self.panel_legends);
        push_all(&mut r, self.texts);
        push_all(&mut r, self.axis_titles);
        r
    }
}

fn name_view(name: Option<&str>) -> (r: Ghost<Option<Seq<char>>>)
    ensures
        r@ == match name {
            Some(n) => Some(n@),
            None => None,
        },
{
    Ghost(
        match name {
            Some(n) => Some(n@),
            None => None,
        },
    )
}

fn push_text(
    out: &mut Vec<ChromeOp>,
    plot: &Plot,
    layout: &Layout,
    slot: Slot,
    shown: bool,
    text: &Option<String>,
)
    ensures
        final(out)@ == old(out)@ + text_draws(*plot, *layout, slot, shown, *text),
{
    if let Some(t) = text {
        if let Some(rect) = layout.get(plot.patch_id.as_str(), slot) {
            if shown {
                out.push(ChromeOp::Text { slot, rect, text: t.clone() });
            }
        }
    }
    assert(out@ =~= old(out)@ + text_draws(*plot, *layout, slot, shown, *text));
}

impl Plot {
    /// What is drawn behind the plot: nothing where the theme leaves it blank,
    /// or where there is no room.
    pub fn draw_patch_background_into(&self, layout: &Layout, background: Option<&PlotBackground>) -> (r:
        Vec<Step>)
        ensures
            match (background, layout.rect_of(self.patch_id@, Slot::Background)) {
                (Some(b), Some(rect)) => if rect.shut() {
                    r@.len() == 0
                } else {
                    r@ == background_steps(*b, rect)
                },
                _ => r@.len() == 0,
            },
    {
        let b = match background {
            Some(b) => b,
            None => return Vec::new(),
        };
        let rect: SlotRect = match layout.get(self.patch_id.as_str(), Slot::Background) {
            Some(r) => r,
            None => return Vec::new(),
        };
        if rect.is_shut() {
            return Vec::new();
        }
        draw_background(b, &rect)
    }

    fn panel_with_room(&self, layout: &Layout) -> (r: Option<SlotRect>)
        ensures
            r == open_panel(*self, *layout),
    {
        match layout.get(self.patch_id.as_str(), Slot::Panel) {
            Some(r) => if r.is_shut() {
                None
            } else {
                Some(r)
            },
            None => None,
        }
    }

    /// What the panel itself is drawn with; none where there is no room. The
    /// scales are those of the projection's two channels. `overlaid` is the name
    /// of the scale that an overlay takes the place of.
    pub fn draw_panel_chrome_into(
        &self,
        layout: &Layout,
        registry: &ScaleRegistry,
        overlaid: Option<&str>,
    ) -> (r: Option<PanelChrome>)
        ensures
            match r {
                Some(c) => is_panel_chrome(
                    c,
                    *self,
                    *layout,
                    registry.scales@,
                    match overlaid {
                        Some(o) => Some(o@),
                        None => None,
                    },
                ),
                None => open_panel(*self, *layout) is None,
            },
    {
        let panel: SlotRect = match self.panel_with_room(layout) {
            Some(p) => p,
            None => return None,
        };
        let channels = self.projection.consume_channels();
        let channel_0 = self.scale_for(registry, overlaid, channels[0]);
        let channel_1 = self.scale_for(registry, overlaid, channels[1]);
        Some(PanelChrome { panel, channel_0, channel_1 })
    }

    fn rebuild_diffs(&mut self)
        ensures
            all_rediffed(final(self).geoms@, old(self).geoms@),
            *final(self) == (Plot { geoms: final(self).geoms, ..*old(self) }),
    {
        let ghost before = self.geoms@;
        let mut k: usize = 0;
        while k < self.geoms.len()
            invariant
                k <= self.geoms@.len(),
                self.geoms@.len() == before.len(),
                before == old(self).geoms@,
                *self == (Plot { geoms: self.geoms, ..*old(self) }),
                forall|j: int|
                    #![trigger self.geoms@[j]]
                    #![trigger before[j]]
                    0 <= j < k ==> self.geoms@[j].0 == before[j].0
                        && self.geoms@[j].1.rediffed_from(before[j].1),
                forall|j: int|
                    #![trigger self.geoms@[j]]
                    #![trigger before[j]]
                    k <= j < before.len() ==> self.geoms@[j] == before[j],
            decreases before.len() - k,
        {
            self.geoms[k].1.rebuild_diff_against_previous();
            k = k + 1;
        }
    }

    /// What is drawn for the geoms, in order; none, and nothing changes, where
    /// there is no room. Where the plot tracks identity, the diffs of the geoms
    /// are brought up to date first. Once drawn, nothing has changed since.
    pub fn draw_geoms_into(&mut self, layout: &Layout) -> (r: Option<Vec<GeomOp>>)
        ensures
            match r {
                Some(ops) => {
                    &&& open_panel(*old(self), *layout) is Some
                    &&& ops@ == geom_ops(old(self).geoms@, old(self).clip)
                    &&& is_drawn(*final(self), *old(self))
                },
                None => open_panel(*old(self), *layout) is None && *final(self) == *old(self),
            },
    {
        if self.panel_with_room(layout).is_none() {
            return None;
        }
        if self.track_identity {
            self.rebuild_diffs();
        }
        let ghost geoms = old(self).geoms@;
        let mut ops: Vec<GeomOp> = Vec::new();
        if self.clip {
            ops.push(GeomOp::PushOutline);
        }
        let ghost head = ops@;
        let mut k: usize = 0;
        assert(ops@ =~= head + Seq::new(0, |j: int| GeomOp::Geom(geoms[j].0)));
        while k < self.geoms.len()
            invariant
                k <= self.geoms@.len(),
                self.geoms@.len() == geoms.len(),
                forall|j: int|
                    #![trigger self.geoms@[j]]
                    0 <= j < geoms.len() ==> self.geoms@[j].0 == geoms[j].0,
                ops@ == head + Seq::new(k as nat, |j: int| GeomOp::Geom(geoms[j].0)),
            decreases self.geoms@.len() - k,
        {
            ops.push(GeomOp::Geom(self.geoms[k].0));
            k = k + 1;
            assert(ops@ =~= head + Seq::new(k as nat, |j: int| GeomOp::Geom(geoms[j].0)));
        }
        if self.clip {
            ops.push(GeomOp::PopLayer);
        }
        assert(ops@ =~= geom_ops(geoms, self.clip));
        self.dirty = false;
        Some(ops)
    }

    /// What the panel is drawn with, and what is drawn for the geoms on top of
    /// it.
    pub fn draw_panel_into(
        &mut self,
        layout: &Layout,
        registry: &ScaleRegistry,
        overlaid: Option<&str>,
    ) -> (r: Option<(PanelChrome, Vec<GeomOp>)>)
        ensures
            match r {
                Some((c, ops)) => {
                    &&& is_panel_chrome(
                        c,
                        *old(self),
                        *layout,
                        registry.scales@,
                        match overlaid {
                            Some(o) => Some(o@),
                            None => None,
                        },
                    )
                    &&& ops@ == geom_ops(old(self).geoms@, old(self).clip)
                    &&& is_drawn(*final(self), *old(self))
                },
                None => open_panel(*old(self), *layout) is None && *final(self) == *old(self),
            },
    {
        let chrome = self.draw_panel_chrome_into(layout, registry, overlaid);
        let ops = self.draw_geoms_into(layout);
        match (chrome, ops) {
            (Some(c), Some(o)) => Some((c, o)),
            _ => None,
        }
    }

    fn draw_axis(
        &self,
        layout: &Layout,
        registry: &ScaleRegistry,
        overlaid: Option<&str>,
        i: usize,
    ) -> (r: Option<AxisDraw>)
        requires
            i < self.axes@.len(),
        ensures
            is_axis_draw(
                r,
                *self,
                *layout,
                registry.scales@,
                match overlaid {
                    Some(o) => Some(o@),
                    None => None,
                },
                i as int,
            ),
    {
        let axis = &self.axes[i];
        let name = match &axis.scale_name {
            Some(n) => n.as_str(),
            None => return None,
        };
        let panel: SlotRect = match layout.get(self.patch_id.as_str(), Slot::Panel) {
            Some(p) => p,
            None => return None,
        };
        match axis.placement {
            AxisPlacement::Cartesian(side) => {
                let scale = match scale_named(registry, overlaid, name) {
                    Some(s) => s,
                    None => return None,
                };
                match layout.get(self.patch_id.as_str(), cartesian_axis_slot(side)) {
                    Some(rect) => Some(
                        AxisDraw {
                            axis: i,
                            placement: axis.placement,
                            rect: Some(rect),
                            panel,
                            scale,
                        },
                    ),
                    None => None,
                }
            },
            _ => {
                if self.projection.as_polar().is_none() {
                    return None;
                }
                let scale = match scale_named(registry, None, name) {
                    Some(s) => s,
                    None => return None,
                };
                Some(AxisDraw { axis: i, placement: axis.placement, rect: None, panel, scale })
            },
        }
    }

    fn draw_axes_into(&self, layout: &Layout, registry: &ScaleRegistry, overlaid: Option<&str>) -> (r:
        Vec<ChromeOp>)
        ensures
            are_axis_draws(
                r@,
                *self,
                *layout,
                registry.scales@,
                match overlaid {
                    Some(o) => Some(o@),
                    None => None,
                },
                self.axes@.len(),
            ),
    {
        let over = name_view(overlaid);
        let mut out: Vec<ChromeOp> = Vec::new();
        let mut k: usize = 0;
        while k < self.axes.len()
            invariant
                k <= self.axes@.len(),
                over@ == match overlaid {
                    Some(o) => Some(o@),
                    None => None,
                },
                are_axis_draws(out@, *self, *layout, registry.scales@, over@, k as nat),
            decreases self.axes@.len() - k,
        {
            let ghost before = out@;
            if let Some(d) = self.draw_axis(layout, registry, overlaid, k) {
                out.push(ChromeOp::Axis(d));
                assert(out@.drop_last() =~= before);
            }
            k = k + 1;
        }
        out
    }

    fn draw_strips_into(&self, layout: &Layout) -> (r: Vec<ChromeOp>)
        ensures
            r@ == strip_draws(*self, *layout, 4),
    {
        let mut out: Vec<ChromeOp> = Vec::new();
        let mut k: usize = 0;
        while k < 4
            invariant
                k <= 4,
                out@ == strip_draws(*self, *layout, k as nat),
            decreases 4 - k,
        {
            let side = strip_side(k);
            let text = match side {
                AxisSide::Top => self.strips.top.as_ref(),
                AxisSide::Right => self.strips.right.as_ref(),
                AxisSide::Bottom => self.strips.bottom.as_ref(),
                AxisSide::Left => self.strips.left.as_ref(),
            };
            if let Some(t) = text {
                if let Some(rect) = layout.get(self.patch_id.as_str(), strip_slot(side)) {
                    out.push(ChromeOp::Strip { side, rect, text: t.clone() });
                }
            }
            k = k + 1;
        }
        out
    }

    fn draw_legends_into(&self, layout: &Layout, legends: &Vec<Legend>) -> (r: Vec<ChromeOp>)
        ensures
            are_legend_draws(r@, *self, *layout, legends@, 4),
    {
        let groups = legends_grouped_by_side(legends);
        let mut out: Vec<ChromeOp> = Vec::new();
        let mut k: usize = 0;
        while k < groups.len()
            invariant
                k <= groups@.len() == 4,
                forall|j: int|
                    0 <= j < 4 ==> is_side_group(#[trigger] groups@[j], legends@, legend_sides()[j]),
                are_legend_draws(out@, *self, *layout, legends@, k as nat),
            decreases groups@.len() - k,
        {
            let ghost before = out@;
            assert(is_side_group(groups@[k as int], legends@, legend_sides()[k as int]));
            if groups[k].members.len() > 0 {
                if let Some(rect) = layout.get(self.patch_id.as_str(), groups[k].slot) {
                    let members = copied(&groups[k].members);
                    out.push(ChromeOp::Legends { on: groups[k].side, rect, members });
                    assert(out@.drop_last() =~= before);
                }
            }
            k = k + 1;
        }
        out
    }

    fn draw_panel_legends_into(&self, layout: &Layout, groups: &Vec<PanelGroup>) -> (r: Vec<
        ChromeOp,
    >)
        ensures
            are_panel_draws(r@, *self, *layout, groups@),
    {
        let mut out: Vec<ChromeOp> = Vec::new();
        let panel: SlotRect = match layout.get(self.patch_id.as_str(), Slot::Panel) {
            Some(p) => p,
            None => return out,
        };
        let mut k: usize = 0;
        while k < groups.len()
            invariant
                k <= groups@.len(),
                out@.len() == k,
                forall|j: int|
                    0 <= j < k ==> is_panel_draw(#[trigger] out@[j], panel, groups@[j]),
            decreases groups@.len() - k,
        {
            let g = &groups[k];
            let flat = Cond::ge(Expr::Ratio(0, 1), Expr::Var(Quantity::TextWidth));
            let thin = Cond::ge(Expr::Ratio(0, 1), Expr::Var(Quantity::TextHeight));
            let when = flat.negated().and(thin.negated());
            out.push(
                ChromeOp::PanelLegends {
                    panel,
                    anchor: g.anchor,
                    inset: Expr::Lit(g.inset_pt).in_px(),
                    members: copied(&g.members),
                    when,
                },
            );
            assert(is_panel_draw(out@[k as int], panel, groups@[k as int]));
            k = k + 1;
        }
        out
    }

    fn draw_title_of(&self, layout: &Layout, theme: &PlotTheme, axis: &Axis, out: &mut Vec<ChromeOp>)
        ensures
            final(out)@ == old(out)@ + title_draws(*self, *layout, *theme, *axis),
    {
        let ghost before = out@;
        if let Some(title) = &axis.title {
            if let AxisPlacement::Cartesian(side) = axis.placement {
                let t: AxisTitleTheme = theme.axis_title(side);
                if t.shown && t.inside {
                    if let Some(panel) = layout.get(self.patch_id.as_str(), Slot::Panel) {
                        let baseline_deg: i16 = match side {
                            AxisSide::Top => 0,
                            AxisSide::Bottom => 0,
                            AxisSide::Left => -90,
                            AxisSide::Right => 90,
                        };
                        out.push(
                            ChromeOp::TitleInside {
                                side,
                                within: title_strip(side, &panel, &t),
                                title: title.clone(),
                                baseline_deg,
                            },
                        );
                    }
                } else if t.shown {
                    let slot = cartesian_axis_title_slot(side);
                    if let Some(rect) = layout.get(self.patch_id.as_str(), slot) {
                        out.push(ChromeOp::TitleBeside { side, rect, title: title.clone() });
                    }
                }
            }
        }
        assert(out@ =~= before + title_draws(*self, *layout, *theme, *axis));
    }

    /// What is drawn around the panel: axes, then strips, legends beside the
    /// panel, legends in it, the texts of the plot, and the titles of the axes.
    /// What has no rectangle is left out. `legends` are the legends as they are
    /// drawn, those that share rows drawn together, and `agree` says of each two
    /// of them whether their insets do.
    pub fn draw_chrome_into(
        &self,
        layout: &Layout,
        registry: &ScaleRegistry,
        overlaid: Option<&str>,
        theme: &PlotTheme,
        legends: &Vec<Legend>,
        agree: &Vec<Vec<bool>>,
    ) -> (r: ChromePlan)
        requires
            agree@.len() == legends@.len(),
            forall|a: int|
                0 <= a < agree@.len() ==> (#[trigger] agree@[a])@.len() == legends@.len(),
        ensures
            are_axis_draws(
                r.axes@,
                *self,
                *layout,
                registry.scales@,
                match overlaid {
                    Some(o) => Some(o@),
                    None => None,
                },
                self.axes@.len(),
            ),
            r.strips@ == strip_draws(*self, *layout, 4),
            are_legend_draws(r.legends@, *self, *layout, legends@, 4),
            exists|groups: Seq<PanelGroup>| #[trigger]
                are_panel_groups(groups, legends@, agree@) && are_panel_draws(
                    r.panel_legends@,
                    *self,
                    *layout,
                    groups,
                ),
            r.texts@ == texts_draws(*self, *layout, *theme),
            r.axis_titles@ == titles_draws(*self, *layout, *theme, self.axes@.len()),
    {
        let axes = self.draw_axes_into(layout, registry, overlaid);
        let strips = self.draw_strips_into(layout);
        let side_legends = self.draw_legends_into(layout, legends);
        let groups = legends_grouped_in_panel(legends, agree);
        assert(are_panel_groups(groups@, legends@, agree@));
        let panel_legends = self.draw_panel_legends_into(layout, &groups);
        let mut texts: Vec<ChromeOp> = Vec::new();
        push_text(&mut texts, self, layout, Slot::Title, theme.title, &self.title);
        push_text(&mut texts, self, layout, Slot::Subtitle, theme.subtitle, &self.subtitle);
        push_text(&mut texts, self, layout, Slot::Caption, theme.caption, &self.caption);
        assert(texts@ =~= texts_draws(*self, *layout, *theme));
        let mut axis_titles: Vec<ChromeOp> = Vec::new();
        let mut k: usize = 0;
        while k < self.axes.len()
            invariant
                k <= self.axes@.len(),
                axis_titles@ == titles_draws(*self, *layout, *theme, k as nat),
            decreases self.axes@.len() - k,
        {
            self.draw_title_of(layout, theme, &self.axes[k], &mut axis_titles);
            k = k + 1;
        }
        ChromePlan {
            axes,
            strips,
            legends: side_legends,
            panel_legends,
            texts,
            axis_titles,
        }
    }
}

fn copied(v: &Vec<usize>) -> (r: Vec<usize>)
    ensures
        r@ == v@,
{
    let mut r: Vec<usize> = Vec::new();
    let mut k: usize = 0;
    while k < v.len()
        invariant
            k <= v@.len(),
            r@ == v@.take(k as int),
        decreases v@.len() - k,
    {
        r.push(v[k]);
        k = k + 1;
        assert(r@ =~= v@.take(k as int));
    }
    assert(r@ =~= v@);
    r
}

/// A clip that is pushed is popped, after every geom was drawn.
pub proof fn outlines_are_popped(geoms: Seq<(GeomId, AnyGeom)>, clip: bool)
    ensures
        ({
            let s = geom_ops(geoms, clip);
            let first = if clip {
                1int
            } else {
                0int
            };
            &&& s.len() == geoms.len() + 2 * first
            &&& clip ==> s[0] == GeomOp::PushOutline && s[s.len() - 1] == GeomOp::PopLayer
            &&& forall|k: int|
                0 <= k < geoms.len() ==> #[trigger] s[k + first] == GeomOp::Geom(geoms[k].0)
        }),
{
}

} // verus!
