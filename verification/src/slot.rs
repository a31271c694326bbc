//! The anatomy of a patch.

use vstd::prelude::*;

use crate::names::same_name;

verus! {

/// A side of the panel.
#[derive(Clone, Copy, Debug, PartialEq, Eq, Structural, Hash)]
pub enum AxisSide {
    /// Above the panel.
    Top,
    /// Right of the panel.
    Right,
    /// Below the panel.
    Bottom,
    /// Left of the panel.
    Left,
}

/// A region of a patch.
#[derive(Clone, Copy, Debug, PartialEq, Eq, Structural, Hash)]
pub enum Slot {
    /// Behind everything of the patch.
    Background,
    /// Where the geoms are drawn.
    Panel,
    /// The title.
    Title,
    /// The subtitle.
    Subtitle,
    /// The caption.
    Caption,
    /// The axis at the top.
    AxisTop,
    /// The axis at the right.
    AxisRight,
    /// The axis at the bottom.
    AxisBottom,
    /// The axis at the left.
    AxisLeft,
    /// The title of the axis at the top.
    AxisTopTitle,
    /// The title of the axis at the right.
    AxisRightTitle,
    /// The title of the axis at the bottom.
    AxisBottomTitle,
    /// The title of the axis at the left.
    AxisLeftTitle,
    /// The legends at the top.
    LegendTop,
    /// The legends at the right.
    LegendRight,
    /// The legends at the bottom.
    LegendBottom,
    /// The legends at the left.
    LegendLeft,
    /// The facet strip at the top.
    StripTop,
    /// The facet strip at the right.
    StripRight,
    /// The facet strip at the bottom.
    StripBottom,
    /// The facet strip at the left.
    StripLeft,
}

/// The name of a slot.
pub open spec fn slot_name(s: Slot) -> Seq<char> {
    match s {
        Slot::Background => "background"@,
        Slot::Panel => "panel"@,
        Slot::Title => "title"@,
        Slot::Subtitle => "subtitle"@,
        Slot::Caption => "caption"@,
        Slot::AxisTop => "axis_top"@,
        Slot::AxisRight => "axis_right"@,
        Slot::AxisBottom => "axis_bottom"@,
        Slot::AxisLeft => "axis_left"@,
        Slot::AxisTopTitle => "axis_top_title"@,
        Slot::AxisRightTitle => "axis_right_title"@,
        Slot::AxisBottomTitle => "axis_bottom_title"@,
        Slot::AxisLeftTitle => "axis_left_title"@,
        Slot::LegendTop => "legend_top"@,
        Slot::LegendRight => "legend_right"@,
        Slot::LegendBottom => "legend_bottom"@,
        Slot::LegendLeft => "legend_left"@,
        Slot::StripTop => "strip_top"@,
        Slot::StripRight => "strip_right"@,
        Slot::StripBottom => "strip_bottom"@,
        Slot::StripLeft => "strip_left"@,
    }
}

impl Slot {
    /// The slot's name, which the layout knows it by.
    pub fn name(self) -> (r: &'static str)
        ensures
            r@ == slot_name(self),
    {
        match self {
            Slot::Background => "background",
            Slot::Panel => "panel",
            Slot::Title => "title",
            Slot::Subtitle => "subtitle",
            Slot::Caption => "caption",
            Slot::AxisTop => "axis_top",
            Slot::AxisRight => "axis_right",
            Slot::AxisBottom => "axis_bottom",
            Slot::AxisLeft => "axis_left",
            Slot::AxisTopTitle => "axis_top_title",
            Slot::AxisRightTitle => "axis_right_title",
            Slot::AxisBottomTitle => "axis_bottom_title",
            Slot::AxisLeftTitle => "axis_left_title",
            Slot::LegendTop => "legend_top",
            Slot::LegendRight => "legend_right",
            Slot::LegendBottom => "legend_bottom",
            Slot::LegendLeft => "legend_left",
            Slot::StripTop => "strip_top",
            Slot::StripRight => "strip_right",
            Slot::StripBottom => "strip_bottom",
            Slot::StripLeft => "strip_left",
        }
    }

    /// The slot of this name.
    pub fn from_name(name: &str) -> (r: Option<Slot>)
        ensures
            match r {
                Some(s) => slot_name(s) == name@,
                None => forall|s: Slot| #[trigger] slot_name(s) != name@,
            },
    {
        if same_name(name, "background") {
            Some(Slot::Background)
        } else if same_name(name, "panel") {
            Some(Slot::Panel)
        } else if same_name(name, "title") {
            Some(Slot::Title)
        } else if same_name(name, "subtitle") {
            Some(Slot::Subtitle)
        } else if same_name(name, "caption") {
            Some(Slot::Caption)
        } else if same_name(name, "axis_top") {
            Some(Slot::AxisTop)
        } else if same_name(name, "axis_right") {
            Some(Slot::AxisRight)
        } else if same_name(name, "axis_bottom") {
            Some(Slot::AxisBottom)
        } else if same_name(name, "axis_left") {
            Some(Slot::AxisLeft)
        } else if same_name(name, "axis_top_title") {
            Some(Slot::AxisTopTitle)
        } else if same_name(name, "axis_right_title") {
            Some(Slot::AxisRightTitle)
        } else if same_name(name, "axis_bottom_title") {
            Some(Slot::AxisBottomTitle)
        } else if same_name(name, "axis_left_title") {
            Some(Slot::AxisLeftTitle)
        } else if same_name(name, "legend_top") {
            Some(Slot::LegendTop)
        } else if same_name(name, "legend_right") {
            Some(Slot::LegendRight)
        } else if same_name(name, "legend_bottom") {
            Some(Slot::LegendBottom)
        } else if same_name(name, "legend_left") {
            Some(Slot::LegendLeft)
        } else if same_name(name, "strip_top") {
            Some(Slot::StripTop)
        } else if same_name(name, "strip_right") {
            Some(Slot::StripRight)
        } else if same_name(name, "strip_bottom") {
            Some(Slot::StripBottom)
        } else if same_name(name, "strip_left") {
            Some(Slot::StripLeft)
        } else {
            None
        }
    }
}

proof fn name_marks(s: Slot)
    ensures
        slot_name(s).len() >= 5,
        match s {
            Slot::Background => slot_name(s).len() == 10 && slot_name(s)[0] == 'b',
            Slot::Panel => slot_name(s).len() == 5 && slot_name(s)[0] == 'p',
            Slot::Title => slot_name(s).len() == 5 && slot_name(s)[0] == 't',
            Slot::Subtitle => slot_name(s).len() == 8 && slot_name(s)[0] == 's',
            Slot::Caption => slot_name(s).len() == 7 && slot_name(s)[0] == 'c',
            Slot::AxisTop => slot_name(s).len() == 8 && slot_name(s)[0] == 'a',
            Slot::AxisRight => slot_name(s).len() == 10 && slot_name(s)[0] == 'a',
            Slot::AxisBottom => slot_name(s).len() == 11 && slot_name(s)[0] == 'a',
            Slot::AxisLeft => slot_name(s).len() == 9 && slot_name(s)[0] == 'a',
            Slot::AxisTopTitle => slot_name(s).len() == 14 && slot_name(s)[0] == 'a',
            Slot::AxisRightTitle => slot_name(s).len() == 16 && slot_name(s)[0] == 'a',
            Slot::AxisBottomTitle => slot_name(s).len() == 17 && slot_name(s)[0] == 'a',
            Slot::AxisLeftTitle => slot_name(s).len() == 15 && slot_name(s)[0] == 'a',
            Slot::LegendTop => slot_name(s).len() == 10 && slot_name(s)[0] == 'l',
            Slot::LegendRight => slot_name(s).len() == 12 && slot_name(s)[0] == 'l',
            Slot::LegendBottom => slot_name(s).len() == 13 && slot_name(s)[0] == 'l',
            Slot::LegendLeft => slot_name(s).len() == 11 && slot_name(s)[0] == 'l',
            Slot::StripTop => slot_name(s).len() == 9 && slot_name(s)[0] == 's',
            Slot::StripRight => slot_name(s).len() == 11 && slot_name(s)[0] == 's',
            Slot::StripBottom => slot_name(s).len() == 12 && slot_name(s)[0] == 's',
            Slot::StripLeft => slot_name(s).len() == 10 && slot_name(s)[0] == 's',
        },
{
    reveal_strlit("background");
    reveal_strlit("panel");
    reveal_strlit("title");
    reveal_strlit("subtitle");
    reveal_strlit("caption");
    reveal_strlit("axis_top");
    reveal_strlit("axis_right");
    reveal_strlit("axis_bottom");
    reveal_strlit("axis_left");
    reveal_strlit("axis_top_title");
    reveal_strlit("axis_right_title");
    reveal_strlit("axis_bottom_title");
    reveal_strlit("axis_left_title");
    reveal_strlit("legend_top");
    reveal_strlit("legend_right");
    reveal_strlit("legend_bottom");
    reveal_strlit("legend_left");
    reveal_strlit("strip_top");
    reveal_strlit("strip_right");
    reveal_strlit("strip_bottom");
    reveal_strlit("strip_left");
}

/// No two slots share a name.
pub proof fn slot_names_differ(a: Slot, b: Slot)
    requires
        slot_name(a) == slot_name(b),
    ensures
        a == b,
{
    name_marks(a);
    name_marks(b);
}

} // verus!
