//! What surrounds the panel: which texts, titles, strips, legends and labels there
//! are, and where each of them goes.

use vstd::prelude::*;

use crate::expr::Expr;
use crate::laws::data::{one_is_one, zero_is_nought};
use crate::num::{rank_is_value_order, Num};
use crate::pick::channel_side_of;
use crate::plot::aspect::Scale;
use crate::plot::chrome::{
    axis_slot_of, axis_title_slot_of, group_joined, groups_of, legend_sides,
    legends_stand_on_their_side, members_on, sides_in_order, strip_slot_of, Axis, AxisPlacement,
    Legend, LegendSide,
};
use crate::plot::draw::{
    baseline_of, inside_strip, is_axis_draw, is_panel_chrome, strip_draws, texts_draws, title_draws,
    titles_draws, AxisDraw, ChromeOp, PanelChrome,
};
use crate::plot::layout::{rect_among, Layout, Placed, SlotRect};
use crate::plot::wire::{
    axes_ops, axis_ops, bleed_ops, labels_of, legend_ops, outward, spoke_direction, strip_ops,
    text_ops, wire_ops, AxisBreak, PlotTheme, StripRoom, WireOp,
};
use crate::plot::Plot;
use crate::projection::{PolarProjection, Projection, ONE};
use crate::slot::{AxisSide, Slot};

verus! {

proof fn in_either<T>(a: Seq<T>, b: Seq<T>, x: T)
    ensures
        (a + b).contains(x) == (a.contains(x) || b.contains(x)),
{
    let s = a + b;
    if a.contains(x) {
        let k = choose|k: int| 0 <= k < a.len() && a[k] == x;
        assert(s[k] == x);
    }
    if b.contains(x) {
        let k = choose|k: int| 0 <= k < b.len() && b[k] == x;
        assert(s[a.len() + k] == x);
    }
    if s.contains(x) {
        let k = choose|k: int| 0 <= k < s.len() && s[k] == x;
        if k < a.len() {
            assert(a[k] == x);
        } else {
            assert(b[k - a.len()] == x);
        }
    }
}

proof fn in_pushed<T>(a: Seq<T>, y: T, x: T)
    ensures
        a.push(y).contains(x) == (a.contains(x) || x == y),
{
    assert(a.push(y) =~= a + seq![y]);
    in_either(a, seq![y], x);
    assert(seq![y][0] == y);
}

/// Whether a text of the plot is drawn: it is there, it is shown, and it has a
/// rectangle.
pub open spec fn is_shown_text(
    plot: Plot,
    layout: Layout,
    theme: PlotTheme,
    slot: Slot,
    rect: SlotRect,
    text: String,
) -> bool {
    &&& layout.rect_of(plot.patch_id@, slot) == Some(rect)
    &&& {
        ||| slot == Slot::Title && theme.title && plot.title == Some(text)
        ||| slot == Slot::Subtitle && theme.subtitle && plot.subtitle == Some(text)
        ||| slot == Slot::Caption && theme.caption && plot.caption == Some(text)
    }
}

/// The title, the subtitle and the caption each go to a rectangle of their own,
/// and nothing else does.
pub proof fn texts_go_to_their_own_place(
    plot: Plot,
    layout: Layout,
    theme: PlotTheme,
    slot: Slot,
    rect: SlotRect,
    text: String,
)
    ensures
        texts_draws(plot, layout, theme).contains(ChromeOp::Text { slot, rect, text })
            == is_shown_text(plot, layout, theme, slot, rect, text),
{
    let op = ChromeOp::Text { slot, rect, text };
    let a = crate::plot::draw::text_draws(plot, layout, Slot::Title, theme.title, plot.title);
    let b = crate::plot::draw::text_draws(
        plot,
        layout,
        Slot::Subtitle,
        theme.subtitle,
        plot.subtitle,
    );
    let c = crate::plot::draw::text_draws(
        plot,
        layout,
        Slot::Caption,
        theme.caption,
        plot.caption,
    );
    in_either(a + b, c, op);
    in_either(a, b, op);
    if a.len() > 0 {
        assert(a[0] == a[0]);
        assert(a.contains(op) == (a[0] == op));
    }
    if b.len() > 0 {
        assert(b[0] == b[0]);
        assert(b.contains(op) == (b[0] == op));
    }
    if c.len() > 0 {
        assert(c[0] == c[0]);
        assert(c.contains(op) == (c[0] == op));
    }
}

/// What belongs to a side goes to the slot of that side.
pub proof fn slots_are_those_of_their_side(side: AxisSide)
    ensures
        match side {
            AxisSide::Top => axis_slot_of(side) == Slot::AxisTop && axis_title_slot_of(side)
                == Slot::AxisTopTitle && strip_slot_of(side) == Slot::StripTop,
            AxisSide::Right => axis_slot_of(side) == Slot::AxisRight && axis_title_slot_of(side)
                == Slot::AxisRightTitle && strip_slot_of(side) == Slot::StripRight,
            AxisSide::Bottom => axis_slot_of(side) == Slot::AxisBottom && axis_title_slot_of(side)
                == Slot::AxisBottomTitle && strip_slot_of(side) == Slot::StripBottom,
            AxisSide::Left => axis_slot_of(side) == Slot::AxisLeft && axis_title_slot_of(side)
                == Slot::AxisLeftTitle && strip_slot_of(side) == Slot::StripLeft,
        },
{
}

proof fn first_strips(
    plot: Plot,
    layout: Layout,
    room: StripRoom,
    n: nat,
    j: int,
    rect: SlotRect,
    text: String,
)
    requires
        n <= 4,
        0 <= j < 4,
    ensures
        ({
            let side = sides_in_order()[j];
            &&& strip_draws(plot, layout, n).contains(ChromeOp::Strip { side, rect, text }) == (j
                < n && plot.strips.at(side) == Some(text) && layout.rect_of(
                plot.patch_id@,
                strip_slot_of(side),
            ) == Some(rect))
            &&& strip_ops(plot, room, n).contains(
                WireOp::Strip { side, slot: strip_slot_of(side), text },
            ) == (j < n && plot.strips.at(side) == Some(text) && room.at(side))
        }),
    decreases n,
{
    if n > 0 {
        let m = (n - 1) as nat;
        first_strips(plot, layout, room, m, j, rect, text);
        let side = sides_in_order()[j];
        let other = sides_in_order()[n - 1];
        let op = ChromeOp::Strip { side, rect, text };
        let ask = WireOp::Strip { side, slot: strip_slot_of(side), text };
        match (plot.strips.at(other), layout.rect_of(plot.patch_id@, strip_slot_of(other))) {
            (Some(t), Some(r)) => {
                in_pushed(
                    strip_draws(plot, layout, m),
                    ChromeOp::Strip { side: other, rect: r, text: t },
                    op,
                );
            },
            _ => {},
        }
        if let Some(t) = plot.strips.at(other) {
            in_pushed(
                strip_ops(plot, room, m),
                WireOp::Strip { side: other, slot: strip_slot_of(other), text: t },
                ask,
            );
        }
    }
}

/// The strip of each side is drawn with its own text where it has a rectangle,
/// and gets room where it takes any.
pub proof fn strips_go_to_their_own_side(
    plot: Plot,
    layout: Layout,
    room: StripRoom,
    side: AxisSide,
    rect: SlotRect,
    text: String,
)
    ensures
        strip_draws(plot, layout, 4).contains(ChromeOp::Strip { side, rect, text }) == (
        plot.strips.at(side) == Some(text) && layout.rect_of(plot.patch_id@, strip_slot_of(side))
            == Some(rect)),
        strip_ops(plot, room, 4).contains(
            WireOp::Strip { side, slot: strip_slot_of(side), text },
        ) == (plot.strips.at(side) == Some(text) && room.at(side)),
{
    let j: int = match side {
        AxisSide::Top => 0,
        AxisSide::Right => 1,
        AxisSide::Bottom => 2,
        AxisSide::Left => 3,
    };
    first_strips(plot, layout, room, 4, j, rect, text);
}

/// Whether the title of an axis is drawn, and this draws it.
pub open spec fn draws_title(
    op: ChromeOp,
    plot: Plot,
    layout: Layout,
    theme: PlotTheme,
    axis: Axis,
) -> bool {
    match op {
        ChromeOp::TitleBeside { side, rect, title } => {
            &&& axis.placement == AxisPlacement::Cartesian(side)
            &&& axis.title == Some(title)
            &&& theme.title_at(side).shown && !theme.title_at(side).inside
            &&& layout.rect_of(plot.patch_id@, axis_title_slot_of(side)) == Some(rect)
        },
        ChromeOp::TitleInside { side, within, title, baseline_deg } => {
            &&& axis.placement == AxisPlacement::Cartesian(side)
            &&& axis.title == Some(title)
            &&& theme.title_at(side).shown && theme.title_at(side).inside
            &&& layout.rect_of(plot.patch_id@, Slot::Panel) matches Some(panel) && within
                == inside_strip(side, panel, theme.title_at(side))
            &&& baseline_deg == baseline_of(side)
        },
        _ => false,
    }
}

/// Axis titles are drawn for the axes that have one, each on the side of its
/// axis, in the panel or beside it as the theme says.
pub proof fn titles_are_those_of_the_axes(
    plot: Plot,
    layout: Layout,
    theme: PlotTheme,
    n: nat,
    op: ChromeOp,
)
    requires
        n <= plot.axes@.len(),
    ensures
        titles_draws(plot, layout, theme, n).contains(op) == (exists|i: int|
            0 <= i < n && draws_title(op, plot, layout, theme, #[trigger] plot.axes@[i])),
    decreases n,
{
    if n > 0 {
        let m = (n - 1) as nat;
        let axis = plot.axes@[n - 1];
        titles_are_those_of_the_axes(plot, layout, theme, m, op);
        let s = title_draws(plot, layout, theme, axis);
        in_either(titles_draws(plot, layout, theme, m), s, op);
        if s.len() > 0 {
            assert(s[0] == s[0]);
            assert(s.contains(op) == (s[0] == op));
        }
        assert(s.contains(op) == draws_title(op, plot, layout, theme, axis));
    }
}

/// Whether an axis asks for this room.
pub open spec fn asks_for(
    op: WireOp,
    axis: Axis,
    scales: Map<Seq<char>, Scale>,
    theme: PlotTheme,
) -> bool {
    match op {
        WireOp::AxisRail { side, slot, scale_name } => {
            &&& axis.placement == AxisPlacement::Cartesian(side)
            &&& slot == axis_slot_of(side)
            &&& axis.scale_name == Some(scale_name)
            &&& scales.contains_key(scale_name@)
        },
        WireOp::AxisTitle { side, slot, title } => {
            &&& axis.placement == AxisPlacement::Cartesian(side)
            &&& slot == axis_title_slot_of(side)
            &&& axis.title == Some(title)
            &&& !theme.title_at(side).inside
        },
        _ => false,
    }
}

/// Axes beside the panel ask for room on their own side: for the breaks of a
/// scale that is there, and for a title that lies beside the panel.
pub proof fn axes_get_room_on_their_side(
    axes: Seq<Axis>,
    scales: Map<Seq<char>, Scale>,
    theme: PlotTheme,
    n: nat,
    op: WireOp,
)
    requires
        n <= axes.len(),
    ensures
        axes_ops(axes, scales, theme, n).contains(op) == (exists|i: int|
            0 <= i < n && asks_for(op, #[trigger] axes[i], scales, theme)),
    decreases n,
{
    if n > 0 {
        let m = (n - 1) as nat;
        let axis = axes[n - 1];
        axes_get_room_on_their_side(axes, scales, theme, m, op);
        let s = axis_ops(axis, scales, theme);
        in_either(axes_ops(axes, scales, theme, m), s, op);
        if s.len() > 0 {
            assert(s[0] == s[0]);
            assert(s.len() == 2 ==> s[1] == s[1]);
            assert(s.contains(op) == (s[0] == op || s.len() == 2 && s[1] == op));
        }
        assert(s.contains(op) == asks_for(op, axis, scales, theme));
    }
}

/// Whether a break of a polar axis has a label: it is a value, and round a ring it
/// lies on it.
pub open spec fn has_label(b: AxisBreak, placement: AxisPlacement) -> bool {
    &&& !b.null
    &&& placement is PolarRadius || (b.frac matches Some(f) && f.finite() && 0real <= f.value()
        <= 1real)
}

/// The breaks of a polar axis that lie somewhere are labelled, each once and in
/// order. A label lies outward from its own break, or across the spoke.
pub proof fn breaks_are_labelled(
    p: PolarProjection,
    breaks: Seq<AxisBreak>,
    placement: AxisPlacement,
    n: nat,
)
    requires
        n <= breaks.len() <= usize::MAX,
    ensures
        ({
            let all = labels_of(p, breaks, placement, n);
            &&& forall|k: int|
                0 <= k < all.len() ==> (#[trigger] all[k]).at < n && has_label(
                    breaks[all[k].at as int],
                    placement,
                ) && all[k].direction == (match placement {
                    AxisPlacement::PolarRadius { theta_frac } => spoke_direction(p, theta_frac),
                    _ => outward(p.theta_at(Expr::Lit(breaks[all[k].at as int].frac->0))),
                })
            &&& forall|j: int, k: int|
                0 <= j < k < all.len() ==> (#[trigger] all[j]).at < (#[trigger] all[k]).at
            &&& forall|i: int|
                0 <= i < n && has_label(#[trigger] breaks[i], placement) ==> exists|k: int|
                    0 <= k < all.len() && (#[trigger] all[k]).at == i
        }),
    decreases n,
{
    if n > 0 {
        let m = (n - 1) as nat;
        breaks_are_labelled(p, breaks, placement, m);
        let before = labels_of(p, breaks, placement, m);
        let all = labels_of(p, breaks, placement, n);
        let b = breaks[n - 1];
        zero_is_nought();
        one_is_one();
        if let Some(f) = b.frac {
            if f.finite() {
                rank_is_value_order(f, Num { bits: 0 });
                rank_is_value_order(Num { bits: ONE }, f);
            }
        }
        assert(crate::plot::wire::is_labelled(b, placement) == has_label(b, placement));
        assert forall|i: int| 0 <= i < n && has_label(#[trigger] breaks[i], placement) implies exists|
            k: int,
        | 0 <= k < all.len() && (#[trigger] all[k]).at == i by {
            if i < m {
                let k = choose|k: int| 0 <= k < before.len() && (#[trigger] before[k]).at == i;
                assert(all[k] == before[k]);
            } else {
                assert(all[before.len() as int].at == i);
            }
        }
    }
}

/// Whether legends are grouped as they should be: a group holds legends that hang
/// in the panel on one point and whose insets agree with its first, and every
/// legend in the panel is in a group.
pub open spec fn are_grouped(
    groups: Seq<Seq<usize>>,
    legends: Seq<Legend>,
    agree: Seq<Vec<bool>>,
    n: nat,
) -> bool {
    &&& forall|g: int| 0 <= g < groups.len() ==> (#[trigger] groups[g]).len() > 0
    &&& forall|g: int, m: int|
        0 <= g < groups.len() && 0 <= m < groups[g].len() ==> {
            let i = #[trigger] groups[g][m] as int;
            let first = groups[g][0] as int;
            &&& i < n
            &&& legends[i].side is InPanel
            &&& legends[first].side is InPanel
            &&& legends[first].side->anchor == legends[i].side->anchor
            &&& m > 0 ==> agree[first]@[i]
        }
    &&& forall|i: int|
        0 <= i < n && (#[trigger] legends[i]).side is InPanel ==> exists|g: int, m: int|
            0 <= g < groups.len() && 0 <= m < groups[g].len() && #[trigger] groups[g][m] == i
}

proof fn joined_group_fits(
    groups: Seq<Seq<usize>>,
    legends: Seq<Legend>,
    agree: Seq<Vec<bool>>,
    i: int,
    n: nat,
)
    ensures
        group_joined(groups, legends, agree, i, n) matches Some(g) ==> {
            &&& 0 <= g < groups.len()
            &&& crate::plot::chrome::joins(legends, agree, groups[g][0] as int, i)
        },
    decreases groups.len() - n,
{
    if n < groups.len() && !crate::plot::chrome::joins(
        legends,
        agree,
        groups[n as int][0] as int,
        i,
    ) {
        joined_group_fits(groups, legends, agree, i, n + 1);
    }
}

/// Legends in the panel are grouped with those that hang on the same point as far
/// from the edges, and every one of them is in a group.
pub proof fn legends_hang_with_their_like(legends: Seq<Legend>, agree: Seq<Vec<bool>>, n: nat)
    requires
        n <= legends.len() <= usize::MAX,
    ensures
        are_grouped(groups_of(legends, agree, n), legends, agree, n),
    decreases n,
{
    if n > 0 {
        let i = n - 1;
        legends_hang_with_their_like(legends, agree, i as nat);
        let before = groups_of(legends, agree, i as nat);
        let all = groups_of(legends, agree, n);
        joined_group_fits(before, legends, agree, i, 0);
        if legends[i].side is InPanel {
            let at: (int, int) = match group_joined(before, legends, agree, i, 0) {
                Some(g) => (g, before[g].len() as int),
                None => (before.len() as int, 0),
            };
            assert(all[at.0][at.1] == i);
            assert forall|g: int, m: int| 0 <= g < all.len() && 0 <= m < all[g].len() implies ({
                let k = #[trigger] all[g][m] as int;
                let first = all[g][0] as int;
                &&& k < n
                &&& legends[k].side is InPanel
                &&& legends[first].side is InPanel
                &&& legends[first].side->anchor == legends[k].side->anchor
                &&& m > 0 ==> agree[first]@[k]
            }) by {
                if g < before.len() {
                    assert(before[g].len() > 0);
                    assert(all[g][0] == before[g][0]);
                    if m < before[g].len() {
                        assert(all[g][m] == before[g][m]);
                    }
                }
            }
            assert forall|k: int| 0 <= k < n && (#[trigger] legends[k]).side is InPanel implies exists|
                g: int,
                m: int,
            | 0 <= g < all.len() && 0 <= m < all[g].len() && #[trigger] all[g][m] == k by {
                if k < i {
                    let (g, m) = choose|g: int, m: int|
                        0 <= g < before.len() && 0 <= m < before[g].len() && #[trigger] before[g][m]
                            == k;
                    assert(all[g][m] == k);
                }
            }
        }
    }
}

/// A slot of a patch lies where it was put first, and nowhere if it never was.
pub proof fn slots_lie_where_they_were_put(
    placed: Seq<Placed>,
    patch: Seq<char>,
    slot: Slot,
    n: nat,
    i: int,
)
    requires
        n <= placed.len(),
        0 <= i < n,
        placed[i].patch@ == patch && placed[i].slot == slot,
        forall|j: int|
            0 <= j < i ==> !((#[trigger] placed[j]).patch@ == patch && placed[j].slot == slot),
    ensures
        rect_among(placed, patch, slot, n) == Some(placed[i].rect),
    decreases n,
{
    if i < n - 1 {
        slots_lie_where_they_were_put(placed, patch, slot, (n - 1) as nat, i);
    } else {
        slots_that_were_not_put_lie_nowhere(placed, patch, slot, i as nat);
    }
}

/// A slot of a patch that was not put anywhere has no rectangle.
pub proof fn slots_that_were_not_put_lie_nowhere(
    placed: Seq<Placed>,
    patch: Seq<char>,
    slot: Slot,
    n: nat,
)
    requires
        n <= placed.len(),
        forall|j: int|
            0 <= j < n ==> !((#[trigger] placed[j]).patch@ == patch && placed[j].slot == slot),
    ensures
        rect_among(placed, patch, slot, n) is None,
    decreases n,
{
    if n > 0 {
        slots_that_were_not_put_lie_nowhere(placed, patch, slot, (n - 1) as nat);
        assert(!placed[n - 1].is_for(patch, slot));
    }
}

/// A rectangle is shut where its right edge is not right of its left one, or its
/// lower one not below its upper one.
pub proof fn shut_rectangles_have_no_room(r: SlotRect)
    requires
        r.x0.finite() && r.y0.finite() && r.x1.finite() && r.y1.finite(),
    ensures
        r.shut() == (r.x1.value() <= r.x0.value() || r.y1.value() <= r.y0.value()),
{
    rank_is_value_order(r.x0, r.x1);
    rank_is_value_order(r.y0, r.y1);
}

proof fn first_legend_sides(legends: Seq<Legend>, n: nat, j: int)
    requires
        n <= 4,
        0 <= j < 4,
        legends.len() <= usize::MAX,
    ensures
        ({
            let (on, slot) = legend_sides()[j];
            legend_ops(legends, n).contains(WireOp::Legends { on, slot }) == (j < n && exists|i: int|
                0 <= i < legends.len() && (#[trigger] legends[i]).side == on)
        }),
    decreases n,
{
    if n > 0 {
        let m = (n - 1) as nat;
        first_legend_sides(legends, m, j);
        let (on, slot) = legend_sides()[j];
        let (other, place) = legend_sides()[n - 1];
        in_pushed(
            legend_ops(legends, m),
            WireOp::Legends { on: other, slot: place },
            WireOp::Legends { on, slot },
        );
        if j == n - 1 {
            let group = members_on(legends, on, legends.len());
            if exists|i: int| 0 <= i < legends.len() && (#[trigger] legends[i]).side == on {
                let i = choose|i: int|
                    0 <= i < legends.len() && (#[trigger] legends[i]).side == on;
                legends_stand_on_their_side(legends, on, legends.len(), i);
                assert(group.len() > 0);
            }
            if group.len() > 0 {
                members_stand_there(legends, on, legends.len());
                assert(legends[group[0] as int].side == on);
            }
        }
    }
}

proof fn members_stand_there(legends: Seq<Legend>, side: LegendSide, n: nat)
    requires
        n <= legends.len() <= usize::MAX,
    ensures
        forall|k: int|
            #![trigger members_on(legends, side, n)[k]]
            0 <= k < members_on(legends, side, n).len() ==> {
                let i = members_on(legends, side, n)[k] as int;
                i < n && legends[i].side == side
            },
    decreases n,
{
    if n > 0 {
        members_stand_there(legends, side, (n - 1) as nat);
    }
}

/// Each side of the panel gets room for legends, in the slot of that side, if any
/// legend stands there.
pub proof fn legends_get_room_on_their_side(legends: Seq<Legend>, on: LegendSide)
    requires
        legends.len() <= usize::MAX,
        !(on is InPanel),
    ensures
        ({
            let slot = match on {
                LegendSide::Left => Slot::LegendLeft,
                LegendSide::Right => Slot::LegendRight,
                LegendSide::Top => Slot::LegendTop,
                _ => Slot::LegendBottom,
            };
            legend_ops(legends, 4).contains(WireOp::Legends { on, slot }) == (exists|i: int|
                0 <= i < legends.len() && (#[trigger] legends[i]).side == on)
        }),
{
    let j: int = match on {
        LegendSide::Right => 0,
        LegendSide::Left => 1,
        LegendSide::Top => 2,
        _ => 3,
    };
    first_legend_sides(legends, 4, j);
}

/// A plot asks for room for every text that it shows, and for what its axes,
/// legends and strips ask for.
pub proof fn plots_ask_for_what_they_show(
    plot: Plot,
    scales: Map<Seq<char>, Scale>,
    theme: PlotTheme,
    legends: Seq<Legend>,
    bleeding: nat,
    op: WireOp,
)
    requires
        ({
            ||| op matches WireOp::Text { slot, align_to, text } && align_to == theme.align_to && {
                ||| slot == Slot::Title && theme.title && plot.title == Some(text)
                ||| slot == Slot::Subtitle && theme.subtitle && plot.subtitle == Some(text)
                ||| slot == Slot::Caption && theme.caption && plot.caption == Some(text)
            }
            ||| op matches WireOp::Aspect(a) && plot.aspect_wanted(scales) == Some(a)
            ||| exists|i: int|
                0 <= i < plot.axes@.len() && asks_for(op, #[trigger] plot.axes@[i], scales, theme)
            ||| legend_ops(legends, 4).contains(op)
            ||| strip_ops(plot, theme.strips, 4).contains(op)
            ||| bleed_ops(bleeding).contains(op)
            ||| op is Panel
        }),
    ensures
        wire_ops(plot, scales, theme, legends, bleeding).contains(op),
{
    let aspect = match plot.aspect_wanted(scales) {
        Some(a) => seq![WireOp::Aspect(a)],
        None => Seq::empty(),
    };
    let t = text_ops(Slot::Title, theme.align_to, theme.title, plot.title);
    let u = text_ops(Slot::Subtitle, theme.align_to, theme.subtitle, plot.subtitle);
    let c = text_ops(Slot::Caption, theme.align_to, theme.caption, plot.caption);
    let a = axes_ops(plot.axes@, scales, theme, plot.axes@.len());
    let b = bleed_ops(bleeding);
    let l = legend_ops(legends, 4);
    let s = strip_ops(plot, theme.strips, 4);
    let p = seq![WireOp::Panel];
    axes_get_room_on_their_side(plot.axes@, scales, theme, plot.axes@.len(), op);
    in_either(aspect + t + u + c + a + b + l + s, p, op);
    in_either(aspect + t + u + c + a + b + l, s, op);
    in_either(aspect + t + u + c + a + b, l, op);
    in_either(aspect + t + u + c + a, b, op);
    in_either(aspect + t + u + c, a, op);
    in_either(aspect + t + u, c, op);
    in_either(aspect + t, u, op);
    in_either(aspect, t, op);
    assert(op is Panel ==> p[0] == op);
    if let WireOp::Text { slot, align_to, text } = op {
        if align_to == theme.align_to {
            assert(slot == Slot::Title && theme.title && plot.title == Some(text) ==> t[0] == op);
            assert(slot == Slot::Subtitle && theme.subtitle && plot.subtitle == Some(text) ==> u[0]
                == op);
            assert(slot == Slot::Caption && theme.caption && plot.caption == Some(text) ==> c[0]
                == op);
        }
    }
    assert(op matches WireOp::Aspect(w) && plot.aspect_wanted(scales) == Some(w) ==> aspect[0]
        == op);
}

/// An axis is drawn where the panel is there, its scale is there, and it has a
/// place: a rectangle of its own beside the panel, or a polar panel to lie in. It
/// shows its own scale, or beside the panel the overlay in place of it.
pub proof fn axes_are_drawn_where_they_have_a_place(
    d: Option<AxisDraw>,
    plot: Plot,
    layout: Layout,
    scales: Map<Seq<char>, Scale>,
    overlaid: Option<Seq<char>>,
    i: int,
)
    requires
        is_axis_draw(d, plot, layout, scales, overlaid, i),
    ensures
        ({
            let axis = plot.axes@[i];
            let name = axis.scale_name->0@;
            let panel = layout.rect_of(plot.patch_id@, Slot::Panel);
            let placed = match axis.placement {
                AxisPlacement::Cartesian(side) => {
                    &&& layout.rect_of(plot.patch_id@, axis_slot_of(side)) is Some
                    &&& overlaid == Some(name) || scales.contains_key(name)
                },
                _ => plot.projection is Polar && scales.contains_key(name),
            };
            &&& d is Some <==> panel is Some && axis.scale_name is Some && placed
            &&& d matches Some(d) ==> {
                &&& d.axis == i
                &&& d.placement == axis.placement
                &&& Some(d.panel) == panel
                &&& d.scale.name@ == name
                &&& match axis.placement {
                    AxisPlacement::Cartesian(side) => d.rect == layout.rect_of(
                        plot.patch_id@,
                        axis_slot_of(side),
                    ) && d.scale.overlaid == (overlaid == Some(name)),
                    _ => d.rect is None && !d.scale.overlaid,
                }
            }
        }),
{
}

/// The panel is drawn with the scales of the projection's two channels, the one
/// across or round first.
pub proof fn panels_are_drawn_with_their_own_scales(
    c: PanelChrome,
    plot: Plot,
    layout: Layout,
    scales: Map<Seq<char>, Scale>,
    overlaid: Option<Seq<char>>,
)
    requires
        is_panel_chrome(c, plot, layout, scales, overlaid),
    ensures
        layout.rect_of(plot.patch_id@, Slot::Panel) == Some(c.panel),
        !c.panel.shut(),
        ({
            let (a, b) = match plot.projection {
                Projection::Cartesian => ("x"@, "y"@),
                Projection::Polar(p) => (p.angle_channel@, p.radius_channel@),
            };
            &&& c.channel_0 matches Some(s) ==> plot.bindings@.contains_key(a) && s.name@
                == plot.bindings@[a]@
            &&& c.channel_1 matches Some(s) ==> plot.bindings@.contains_key(b) && s.name@
                == plot.bindings@[b]@
            &&& plot.bindings@.contains_key(a) && scales.contains_key(plot.bindings@[a]@)
                ==> c.channel_0 is Some
            &&& plot.bindings@.contains_key(b) && scales.contains_key(plot.bindings@[b]@)
                ==> c.channel_1 is Some
        }),
{
}

/// The theme files an axis and its title together, by whether it runs across or
/// up, and by whether it stands below or left of the panel or across from there.
/// Other slots belong to no axis.
pub proof fn axis_slots_are_filed_by_channel(side: AxisSide, slot: Slot)
    ensures
        channel_side_of(axis_slot_of(side)) == channel_side_of(axis_title_slot_of(side)),
        channel_side_of(axis_slot_of(side)) == Some(
            match side {
                AxisSide::Bottom => (0u8, 0u8),
                AxisSide::Top => (0u8, 1u8),
                AxisSide::Left => (1u8, 0u8),
                AxisSide::Right => (1u8, 1u8),
            },
        ),
        channel_side_of(slot) is Some ==> exists|s: AxisSide|
            slot == #[trigger] axis_slot_of(s) || slot == axis_title_slot_of(s),
{
    assert(axis_slot_of(AxisSide::Bottom) == Slot::AxisBottom);
    assert(axis_slot_of(AxisSide::Top) == Slot::AxisTop);
    assert(axis_slot_of(AxisSide::Left) == Slot::AxisLeft);
    assert(axis_slot_of(AxisSide::Right) == Slot::AxisRight);
}

} // verus!
