//! What stands around a panel: axes, legends and strips, and where they go.

use vstd::prelude::*;

use crate::expr::{c_within, e_sub, within, Cond, Expr};
use crate::num::Num;
use crate::pick::channel_side_of;
use crate::slot::{AxisSide, Slot};

verus! {

/// A ring of a polar plot.
#[derive(Clone, Copy, Debug, PartialEq, Eq, Structural)]
pub enum PolarRing {
    /// Round the outside.
    Outer,
    /// Round the hole.
    Inner,
}

/// Where an axis stands.
#[derive(Clone, Copy, Debug, PartialEq, Eq, Structural)]
pub enum AxisPlacement {
    /// At a side of the panel.
    Cartesian(AxisSide),
    /// Along a spoke.
    PolarRadius {
        /// Where round the sweep the spoke is.
        theta_frac: Num,
    },
    /// Round a ring.
    PolarAngular(PolarRing),
}

/// An axis.
#[derive(Debug)]
pub struct Axis {
    /// The scale whose breaks it shows; none for a title alone.
    pub scale_name: Option<String>,
    /// Its title.
    pub title: Option<String>,
    /// Where it stands.
    pub placement: AxisPlacement,
}

impl Axis {
    /// An axis for a scale, without a title.
    pub fn rail(scale_name: &str, placement: AxisPlacement) -> (r: Axis)
        ensures
            r.scale_name is Some,
            r.scale_name->0@ == scale_name@,
            r.title is None,
            r.placement == placement,
    {
        Axis { scale_name: Some(scale_name.to_owned()), title: None, placement }
    }

    /// The same axis with a title.
    pub fn titled(self, title: &str) -> (r: Axis)
        ensures
            r.title is Some,
            r.title->0@ == title@,
            r.scale_name == self.scale_name,
            r.placement == self.placement,
    {
        Axis {
            scale_name: self.scale_name,
            title: Some(title.to_owned()),
            placement: self.placement,
        }
    }
}

/// A point of the panel that a legend hangs on.
#[derive(Clone, Copy, Debug, PartialEq, Eq, Structural)]
pub enum Anchor {
    /// The top left corner.
    TopLeft,
    /// The middle of the top edge.
    Top,
    /// The top right corner.
    TopRight,
    /// The middle of the left edge.
    Left,
    /// The middle.
    Center,
    /// The middle of the right edge.
    Right,
    /// The bottom left corner.
    BottomLeft,
    /// The middle of the bottom edge.
    Bottom,
    /// The bottom right corner.
    BottomRight,
}

/// Where a legend stands.
#[derive(Clone, Copy, Debug, PartialEq, Eq, Structural)]
pub enum LegendSide {
    /// Right of the panel.
    Right,
    /// Left of the panel.
    Left,
    /// Above the panel.
    Top,
    /// Below the panel.
    Bottom,
    /// In the panel.
    InPanel {
        /// The point it hangs on.
        anchor: Anchor,
        /// How far it stays off the edges, in points.
        inset_pt: Num,
    },
}

/// A legend.
#[derive(Debug)]
pub struct Legend {
    /// The scale that it explains.
    pub scale_name: String,
    /// Its title.
    pub title: Option<String>,
    /// Where it stands.
    pub side: LegendSide,
    /// Whether it shares its rows with a legend before it that explains the
    /// same.
    pub merge: bool,
}

impl Legend {
    /// A legend at the right for a scale, which shares its rows.
    pub fn new(scale_name: &str) -> (r: Legend)
        ensures
            r.scale_name@ == scale_name@,
            r.title is None,
            r.side == LegendSide::Right,
            r.merge,
    {
        Legend {
            scale_name: scale_name.to_owned(),
            title: None,
            side: LegendSide::Right,
            merge: true,
        }
    }

    /// The same legend on another side.
    pub fn on(self, side: LegendSide) -> (r: Legend)
        ensures
            r == (Legend { side, ..self }),
    {
        Legend { scale_name: self.scale_name, title: self.title, side, merge: self.merge }
    }
}

/// The place of a side in the order of sides: clockwise from the top.
pub open spec fn side_index(side: AxisSide) -> usize {
    match side {
        AxisSide::Top => 0,
        AxisSide::Right => 1,
        AxisSide::Bottom => 2,
        AxisSide::Left => 3,
    }
}

/// The sides in order: clockwise from the top.
pub open spec fn sides_in_order() -> Seq<AxisSide> {
    seq![AxisSide::Top, AxisSide::Right, AxisSide::Bottom, AxisSide::Left]
}

/// The place of a side in the order of sides.
pub fn axis_side_index(side: AxisSide) -> (r: usize)
    ensures
        r == side_index(side),
        r < 4,
        sides_in_order()[r as int] == side,
{
    match side {
        AxisSide::Top => 0,
        AxisSide::Right => 1,
        AxisSide::Bottom => 2,
        AxisSide::Left => 3,
    }
}

/// The side at a place in the order of sides.
pub fn strip_side(i: usize) -> (r: AxisSide)
    requires
        i < 4,
    ensures
        r == sides_in_order()[i as int],
        side_index(r) == i,
{
    if i == 0 {
        AxisSide::Top
    } else if i == 1 {
        AxisSide::Right
    } else if i == 2 {
        AxisSide::Bottom
    } else {
        AxisSide::Left
    }
}

/// Where the axis of a side goes.
pub open spec fn axis_slot_of(side: AxisSide) -> Slot {
    match side {
        AxisSide::Left => Slot::AxisLeft,
        AxisSide::Right => Slot::AxisRight,
        AxisSide::Bottom => Slot::AxisBottom,
        AxisSide::Top => Slot::AxisTop,
    }
}

/// Where the axis title of a side goes.
pub open spec fn axis_title_slot_of(side: AxisSide) -> Slot {
    match side {
        AxisSide::Left => Slot::AxisLeftTitle,
        AxisSide::Right => Slot::AxisRightTitle,
        AxisSide::Bottom => Slot::AxisBottomTitle,
        AxisSide::Top => Slot::AxisTopTitle,
    }
}

/// Where the strip of a side goes.
pub open spec fn strip_slot_of(side: AxisSide) -> Slot {
    match side {
        AxisSide::Left => Slot::StripLeft,
        AxisSide::Right => Slot::StripRight,
        AxisSide::Bottom => Slot::StripBottom,
        AxisSide::Top => Slot::StripTop,
    }
}

/// Where the axis of a side goes.
pub fn cartesian_axis_slot(side: AxisSide) -> (r: Slot)
    ensures
        r == axis_slot_of(side),
{
    match side {
        AxisSide::Left => Slot::AxisLeft,
        AxisSide::Right => Slot::AxisRight,
        AxisSide::Bottom => Slot::AxisBottom,
        AxisSide::Top => Slot::AxisTop,
    }
}

/// Where the axis title of a side goes.
pub fn cartesian_axis_title_slot(side: AxisSide) -> (r: Slot)
    ensures
        r == axis_title_slot_of(side),
{
    match side {
        AxisSide::Left => Slot::AxisLeftTitle,
        AxisSide::Right => Slot::AxisRightTitle,
        AxisSide::Bottom => Slot::AxisBottomTitle,
        AxisSide::Top => Slot::AxisTopTitle,
    }
}

/// Where the strip of a side goes.
pub fn strip_slot(side: AxisSide) -> (r: Slot)
    ensures
        r == strip_slot_of(side),
{
    match side {
        AxisSide::Left => Slot::StripLeft,
        AxisSide::Right => Slot::StripRight,
        AxisSide::Bottom => Slot::StripBottom,
        AxisSide::Top => Slot::StripTop,
    }
}

/// No two sides share a slot, for their axes, their titles or their strips, and
/// the slots of an axis and of its title are themed alike.
pub proof fn side_slots_differ(a: AxisSide, b: AxisSide)
    ensures
        a != b ==> axis_slot_of(a) != axis_slot_of(b),
        a != b ==> axis_title_slot_of(a) != axis_title_slot_of(b),
        a != b ==> strip_slot_of(a) != strip_slot_of(b),
        axis_slot_of(a) != axis_title_slot_of(b),
        axis_slot_of(a) != strip_slot_of(b),
        axis_title_slot_of(a) != strip_slot_of(b),
        channel_side_of(axis_slot_of(a)) == channel_side_of(axis_title_slot_of(a)),
        channel_side_of(axis_slot_of(a)) is Some,
{
}

/// What the title of a plot is lined up with.
#[derive(Clone, Copy, Debug, PartialEq, Eq, Structural)]
pub enum AlignTo {
    /// The whole plot.
    Plot,
    /// The panel.
    Panel,
}

/// A place on the grid of a patch.
#[derive(Clone, Copy, Debug, PartialEq, Eq, Structural)]
pub struct GridPlace {
    /// The row.
    pub row: u16,
    /// The column.
    pub col: u16,
    /// How many rows it covers.
    pub rows: u16,
    /// How many columns it covers.
    pub cols: u16,
}

/// Where the text of a slot goes, given where the slot itself lies and the
/// column of the panel: over the whole width of the plot, or over the panel.
pub open spec fn band_place(slot: GridPlace, panel_col: u16, align_to: AlignTo) -> GridPlace {
    match align_to {
        AlignTo::Plot => slot,
        AlignTo::Panel => GridPlace { col: panel_col, cols: 1, ..slot },
    }
}

/// Where the text of a slot goes, given where the slot itself lies and the
/// column of the panel.
pub fn title_band_placement(slot: GridPlace, panel_col: u16, align_to: AlignTo) -> (r: GridPlace)
    ensures
        r == band_place(slot, panel_col, align_to),
{
    match align_to {
        AlignTo::Plot => slot,
        AlignTo::Panel => GridPlace { row: slot.row, col: panel_col, rows: slot.rows, cols: 1 },
    }
}

/// The legends of one side of the panel.
#[derive(Debug)]
pub struct SideGroup {
    /// The side.
    pub side: LegendSide,
    /// Where they go.
    pub slot: Slot,
    /// Their places among the legends.
    pub members: Vec<usize>,
}

/// The sides of the panel in the order in which their legends are laid out.
pub open spec fn legend_sides() -> Seq<(LegendSide, Slot)> {
    seq![
        (LegendSide::Right, Slot::LegendRight),
        (LegendSide::Left, Slot::LegendLeft),
        (LegendSide::Top, Slot::LegendTop),
        (LegendSide::Bottom, Slot::LegendBottom),
    ]
}

/// The places of those among the first `n` legends that stand on a side.
pub open spec fn members_on(legends: Seq<Legend>, side: LegendSide, n: nat) -> Seq<usize>
    decreases n,
{
    if n == 0 {
        Seq::empty()
    } else {
        let before = members_on(legends, side, (n - 1) as nat);
        if legends[n - 1].side == side {
            before.push((n - 1) as usize)
        } else {
            before
        }
    }
}

fn members_for(legends: &Vec<Legend>, side: LegendSide) -> (r: Vec<usize>)
    ensures
        r@ == members_on(legends@, side, legends@.len()),
{
    let mut r: Vec<usize> = Vec::new();
    let mut i: usize = 0;
    while i < legends.len()
        invariant
            i <= legends@.len(),
            r@ == members_on(legends@, side, i as nat),
        decreases legends@.len() - i,
    {
        if legends[i].side == side {
            r.push(i);
        }
        i = i + 1;
    }
    r
}

/// Whether `g` holds the legends of one side.
pub open spec fn is_side_group(g: SideGroup, legends: Seq<Legend>, side: (LegendSide, Slot)) -> bool {
    &&& g.side == side.0
    &&& g.slot == side.1
    &&& g.members@ == members_on(legends, side.0, legends.len())
}

/// The legends by side, in the order right, left, top, bottom. A side without
/// legends is there too, and legends in the panel are not.
pub fn legends_grouped_by_side(legends: &Vec<Legend>) -> (r: Vec<SideGroup>)
    ensures
        r@.len() == 4,
        forall|k: int|
            0 <= k < 4 ==> is_side_group(#[trigger] r@[k], legends@, legend_sides()[k]),
{
    let right = SideGroup {
        side: LegendSide::Right,
        slot: Slot::LegendRight,
        members: members_for(legends, LegendSide::Right),
    };
    let left = SideGroup {
        side: LegendSide::Left,
        slot: Slot::LegendLeft,
        members: members_for(legends, LegendSide::Left),
    };
    let top = SideGroup {
        side: LegendSide::Top,
        slot: Slot::LegendTop,
        members: members_for(legends, LegendSide::Top),
    };
    let bottom = SideGroup {
        side: LegendSide::Bottom,
        slot: Slot::LegendBottom,
        members: members_for(legends, LegendSide::Bottom),
    };
    let r: Vec<SideGroup> = vec![right, left, top, bottom];
    assert(r@ =~= seq![right, left, top, bottom]);
    r
}

/// Every legend that stands beside the panel is in the group of its side, and in
/// no other.
pub proof fn legends_stand_on_their_side(legends: Seq<Legend>, side: LegendSide, n: nat, i: int)
    requires
        0 <= i < n <= legends.len() <= usize::MAX,
    ensures
        members_on(legends, side, n).contains(i as usize) == (legends[i].side == side),
    decreases n,
{
    members_are_before(legends, side, n);
    let s = members_on(legends, side, n);
    let t = members_on(legends, side, (n - 1) as nat);
    members_are_before(legends, side, (n - 1) as nat);
    if i < n - 1 {
        legends_stand_on_their_side(legends, side, (n - 1) as nat, i);
        if t.contains(i as usize) {
            let k = choose|k: int| 0 <= k < t.len() && t[k] == i as usize;
            assert(s[k] == i as usize);
        }
        if s.contains(i as usize) {
            let k = choose|k: int| 0 <= k < s.len() && s[k] == i as usize;
            assert(t[k] == i as usize);
        }
    } else {
        if legends[i].side == side {
            assert(s[t.len() as int] == i as usize);
        } else if s.contains(i as usize) {
            let k = choose|k: int| 0 <= k < s.len() && s[k] == i as usize;
            assert(t[k] < n - 1);
        }
    }
}

proof fn members_are_before(legends: Seq<Legend>, side: LegendSide, n: nat)
    requires
        n <= legends.len() <= usize::MAX,
    ensures
        forall|k: int|
            0 <= k < members_on(legends, side, n).len() ==> (#[trigger] members_on(
                legends,
                side,
                n,
            )[k]) < n,
    decreases n,
{
    if n > 0 {
        let t = members_on(legends, side, (n - 1) as nat);
        let s = members_on(legends, side, n);
        members_are_before(legends, side, (n - 1) as nat);
        assert forall|k: int| 0 <= k < s.len() implies (#[trigger] s[k]) < n by {
            if k < t.len() {
                assert(s[k] == t[k]);
            }
        }
    }
}

/// The legends that hang on one point of the panel.
#[derive(Debug)]
pub struct PanelGroup {
    /// The point.
    pub anchor: Anchor,
    /// How far they stay off the edges, in points.
    pub inset_pt: Num,
    /// Their places among the legends.
    pub members: Vec<usize>,
}

/// The condition that two insets are one.
pub fn insets_agree(a: Num, b: Num) -> (r: Cond)
    ensures
        r == c_within(e_sub(Expr::Lit(a), Expr::Lit(b)), 0x10_0000_0000_0000),
{
    within(Expr::Lit(a).minus(Expr::Lit(b)), 0x10_0000_0000_0000)
}

/// Whether a legend hangs in the panel.
pub open spec fn is_in_panel(l: Legend) -> bool {
    l.side is InPanel
}

/// Whether a legend joins the group that starts with another: both hang on one
/// point, and their insets agree.
pub open spec fn joins(legends: Seq<Legend>, agree: Seq<Vec<bool>>, first: int, i: int) -> bool {
    &&& is_in_panel(legends[first])
    &&& is_in_panel(legends[i])
    &&& legends[first].side->anchor == legends[i].side->anchor
    &&& agree[first]@[i]
}

/// The first of the first `n` groups that legend `i` joins.
pub open spec fn group_joined(
    groups: Seq<Seq<usize>>,
    legends: Seq<Legend>,
    agree: Seq<Vec<bool>>,
    i: int,
    n: nat,
) -> Option<int>
    decreases groups.len() - n,
{
    if n >= groups.len() {
        None
    } else if joins(legends, agree, groups[n as int][0] as int, i) {
        Some(n as int)
    } else {
        group_joined(groups, legends, agree, i, n + 1)
    }
}

/// The groups of the first `n` legends: each legend in the panel joins the first
/// group that it can, or starts one of its own.
pub open spec fn groups_of(legends: Seq<Legend>, agree: Seq<Vec<bool>>, n: nat) -> Seq<Seq<usize>>
    decreases n,
{
    if n == 0 {
        Seq::empty()
    } else {
        let before = groups_of(legends, agree, (n - 1) as nat);
        if !is_in_panel(legends[n - 1]) {
            before
        } else {
            match group_joined(before, legends, agree, n - 1, 0) {
                Some(g) => before.update(g, before[g].push((n - 1) as usize)),
                None => before.push(seq![(n - 1) as usize]),
            }
        }
    }
}

/// The members of each group.
pub open spec fn members_of(groups: Seq<PanelGroup>) -> Seq<Seq<usize>> {
    Seq::new(groups.len(), |k: int| groups[k].members@)
}

/// Whether a group goes by its first member, and holds legends only.
pub open spec fn is_led(g: PanelGroup, legends: Seq<Legend>) -> bool {
    &&& g.members@.len() > 0
    &&& g.members@[0] < legends.len()
    &&& legends[g.members@[0] as int].side == (LegendSide::InPanel {
        anchor: g.anchor,
        inset_pt: g.inset_pt,
    })
}

fn find_group(
    groups: &Vec<PanelGroup>,
    legends: &Vec<Legend>,
    agree: &Vec<Vec<bool>>,
    anchor: Anchor,
    i: usize,
) -> (r: Option<usize>)
    requires
        i < legends@.len(),
        agree@.len() == legends@.len(),
        forall|a: int|
            0 <= a < agree@.len() ==> (#[trigger] agree@[a])@.len() == legends@.len(),
        is_in_panel(legends@[i as int]),
        legends@[i as int].side->anchor == anchor,
        forall|k: int| 0 <= k < groups@.len() ==> is_led(#[trigger] groups@[k], legends@),
    ensures
        match r {
            Some(g) => g < groups@.len() && group_joined(
                members_of(groups@),
                legends@,
                agree@,
                i as int,
                0,
            ) == Some(g as int),
            None => group_joined(members_of(groups@), legends@, agree@, i as int, 0) is None,
        },
{
    let ghost m = members_of(groups@);
    let mut g: usize = 0;
    while g < groups.len()
        invariant
            g <= groups@.len(),
            i < legends@.len(),
            agree@.len() == legends@.len(),
            forall|a: int|
                0 <= a < agree@.len() ==> (#[trigger] agree@[a])@.len() == legends@.len(),
            is_in_panel(legends@[i as int]),
            legends@[i as int].side->anchor == anchor,
            forall|k: int| 0 <= k < groups@.len() ==> is_led(#[trigger] groups@[k], legends@),
            m == members_of(groups@),
            group_joined(m, legends@, agree@, i as int, 0) == group_joined(
                m,
                legends@,
                agree@,
                i as int,
                g as nat,
            ),
        decreases groups@.len() - g,
    {
        assert(is_led(groups@[g as int], legends@));
        let first: usize = groups[g].members[0];
        assert(m[g as int][0] == first);
        assert(agree@[first as int]@.len() == legends@.len());
        if groups[g].anchor == anchor && agree[first][i] {
            assert(joins(legends@, agree@, m[g as int][0] as int, i as int));
            return Some(g);
        }
        assert(!joins(legends@, agree@, m[g as int][0] as int, i as int));
        g = g + 1;
    }
    None
}

/// The legends in the panel, grouped by the point they hang on and by how far
/// they stay off the edges. `agree` says of each two legends whether their insets
/// do. Legends beside the panel are in no group.
pub fn legends_grouped_in_panel(legends: &Vec<Legend>, agree: &Vec<Vec<bool>>) -> (r: Vec<PanelGroup>)
    requires
        agree@.len() == legends@.len(),
        forall|a: int|
            0 <= a < agree@.len() ==> (#[trigger] agree@[a])@.len() == legends@.len(),
    ensures
        members_of(r@) == groups_of(legends@, agree@, legends@.len()),
        forall|k: int| 0 <= k < r@.len() ==> is_led(#[trigger] r@[k], legends@),
{
    let mut groups: Vec<PanelGroup> = Vec::new();
    let mut i: usize = 0;
    assert(members_of(groups@) =~= groups_of(legends@, agree@, 0));
    while i < legends.len()
        invariant
            i <= legends@.len(),
            agree@.len() == legends@.len(),
            forall|a: int|
                0 <= a < agree@.len() ==> (#[trigger] agree@[a])@.len() == legends@.len(),
            members_of(groups@) == groups_of(legends@, agree@, i as nat),
            forall|k: int| 0 <= k < groups@.len() ==> is_led(#[trigger] groups@[k], legends@),
        decreases legends@.len() - i,
    {
        let ghost before = groups@;
        let ghost m = members_of(before);
        match legends[i].side {
            LegendSide::InPanel { anchor, inset_pt } => {
                match find_group(&groups, legends, agree, anchor, i) {
                    Some(g) => {
                        let ghost old_group = groups@[g as int];
                        groups[g].members.push(i);
                        assert(groups@[g as int].members@ == m[g as int].push(i));
                        assert(groups@.len() == before.len());
                        assert forall|k: int| 0 <= k < groups@.len() implies is_led(
                            #[trigger] groups@[k],
                            legends@,
                        ) by {
                            assert(is_led(before[k], legends@));
                        }
                        assert(members_of(groups@) =~= m.update(g as int, m[g as int].push(i)));
                    },
                    None => {
                        let members: Vec<usize> = vec![i];
                        assert(members@ =~= seq![i]);
                        groups.push(PanelGroup { anchor, inset_pt, members });
                        assert(members_of(groups@) =~= m.push(seq![i]));
                        assert forall|k: int| 0 <= k < groups@.len() implies is_led(
                            #[trigger] groups@[k],
                            legends@,
                        ) by {
                            if k < before.len() {
                                assert(is_led(before[k], legends@));
                            }
                        }
                    },
                }
            },
            _ => {},
        }
        assert(members_of(groups@) == groups_of(legends@, agree@, (i + 1) as nat));
        i = i + 1;
    }
    groups
}

} // verus!
