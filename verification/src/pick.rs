//! What a hit on a plot means.
//!
//! A path is a list of scopes, outermost first:
//!
//! ```text
//! composition > plot? > region > [axis | legend | geom]? > part > item?
//! ```
//!
//! The constructors here make the scopes; [`PlotPath`] reads them back.

use vstd::prelude::*;

use crate::ids::{AxisId, GeomId};
use crate::kind;
use crate::names::same_name;
use crate::slot::{slot_name, Slot};

verus! {

/// One scope of a pick path.
#[derive(Debug)]
pub struct PickScope {
    /// What the scope is.
    pub kind: &'static str,
    /// Its name, if it has one.
    pub name: Option<String>,
    /// Its number, if it has one.
    pub index: Option<u32>,
    /// Whether what is drawn directly inside can be hit.
    pub target: bool,
}

/// The pick id of something drawn.
#[derive(Clone, Copy, Debug, PartialEq, Eq, Structural)]
pub enum PickId {
    /// Hit-tests as this id.
    Id(u32),
    /// Lets hits through.
    Skip,
    /// Stops hits without an id.
    Block,
}

/// Scopes from the outermost to the innermost.
#[derive(Clone, Copy, Debug)]
pub struct PickPath<'a> {
    /// The scopes.
    pub scopes: &'a [PickScope],
}

/// Whether `i` is the innermost scope of kind `k`.
pub open spec fn innermost(s: Seq<PickScope>, k: Seq<char>, i: int) -> bool {
    &&& 0 <= i < s.len()
    &&& s[i].kind@ == k
    &&& forall|j: int| i < j < s.len() ==> (#[trigger] s[j]).kind@ != k
}

/// Whether some scope is of kind `k`.
pub open spec fn has_kind(s: Seq<PickScope>, k: Seq<char>) -> bool {
    exists|i: int| 0 <= i < s.len() && (#[trigger] s[i]).kind@ == k
}

/// The innermost scope of kind `k`, if there is one.
pub open spec fn scope_of_kind(s: Seq<PickScope>, k: Seq<char>) -> Option<PickScope>
    decreases s.len(),
{
    if s.len() == 0 {
        None
    } else if s.last().kind@ == k {
        Some(s.last())
    } else {
        scope_of_kind(s.drop_last(), k)
    }
}

/// The name of a scope, if it has one.
pub open spec fn name_in(s: Option<PickScope>) -> Option<Seq<char>> {
    match s {
        Some(p) => match p.name {
            Some(n) => Some(n@),
            None => None,
        },
        None => None,
    }
}

/// The number of a scope, if it has one.
pub open spec fn index_in(s: Option<PickScope>) -> Option<u32> {
    match s {
        Some(p) => p.index,
        None => None,
    }
}

/// The characters of an optional string.
pub open spec fn text_of(s: Option<&str>) -> Option<Seq<char>> {
    match s {
        Some(t) => Some(t@),
        None => None,
    }
}

impl PickScope {
    /// A scope that cannot be hit itself.
    pub fn group(kind: &'static str) -> (r: PickScope)
        ensures
            r == (PickScope { kind, name: None, index: None, target: false }),
    {
        PickScope { kind, name: None, index: None, target: false }
    }

    /// A scope whose contents can be hit.
    pub fn target(kind: &'static str) -> (r: PickScope)
        ensures
            r == (PickScope { kind, name: None, index: None, target: true }),
    {
        PickScope { kind, name: None, index: None, target: true }
    }

    /// The scope with a name.
    pub fn with_name(self, name: &str) -> (r: PickScope)
        ensures
            r.kind == self.kind,
            r.name matches Some(n) && n@ == name@,
            r.index == self.index,
            r.target == self.target,
    {
        PickScope {
            kind: self.kind,
            name: Some(name.to_owned()),
            index: self.index,
            target: self.target,
        }
    }

    /// The scope with a number.
    pub fn with_index(self, index: u32) -> (r: PickScope)
        ensures
            r == (PickScope { index: Some(index), ..self }),
    {
        PickScope { kind: self.kind, name: self.name, index: Some(index), target: self.target }
    }

    /// The scope's name.
    pub fn name(&self) -> (r: Option<&str>)
        ensures
            text_of(r) == name_in(Some(*self)),
    {
        match &self.name {
            Some(n) => Some(n.as_str()),
            None => None,
        }
    }

    /// The scope's number.
    pub fn index(&self) -> (r: Option<u32>)
        ensures
            r == self.index,
    {
        self.index
    }
}

impl<'a> PickPath<'a> {
    /// The innermost scope of a kind.
    pub fn find(&self, kind: &str) -> (r: Option<&'a PickScope>)
        ensures
            match r {
                Some(s) => scope_of_kind(self.scopes@, kind@) == Some(*s),
                None => scope_of_kind(self.scopes@, kind@) is None,
            },
    {
        let mut n: usize = self.scopes.len();
        proof {
            assert(self.scopes@.take(n as int) =~= self.scopes@);
        }
        while n > 0
            invariant
                n <= self.scopes@.len(),
                scope_of_kind(self.scopes@, kind@) == scope_of_kind(
                    self.scopes@.take(n as int),
                    kind@,
                ),
            decreases n,
        {
            let s = &self.scopes[n - 1];
            proof {
                assert(self.scopes@.take(n as int).drop_last() =~= self.scopes@.take(n - 1));
            }
            if same_name(s.kind, kind) {
                return Some(s);
            }
            n = n - 1;
        }
        None
    }
}

/// A piece of chrome within a region.
#[derive(Clone, Copy, Debug, PartialEq, Eq, Structural, Hash)]
#[non_exhaustive]
pub enum PlotPart {
    /// The background of the plot.
    PlotBackground,
    /// The background of the panel.
    PanelBackground,
    /// The major grid lines.
    GridMajor,
    /// The minor grid lines.
    GridMinor,
    /// The graticule.
    Graticule,
    /// The outline of the panel.
    PanelOutline,
    /// The line of an axis.
    AxisLine,
    /// A tick of an axis.
    AxisTick,
    /// A minor tick of an axis.
    AxisMinorTick,
    /// The label of a tick.
    AxisTickLabel,
    /// The title of an axis.
    AxisTitle,
    /// The background of a strip.
    StripBackground,
    /// The label of a strip.
    StripLabel,
    /// The background of a legend.
    LegendBackground,
    /// The title of a legend.
    LegendTitle,
    /// The frame around a legend key.
    LegendKeyFrame,
    /// A legend key.
    LegendKey,
    /// The label of a legend row.
    LegendLabel,
    /// The bar of a colour bar.
    ColorbarBar,
    /// A tick of a colour bar.
    ColorbarTick,
    /// The title.
    Title,
    /// The subtitle.
    Subtitle,
    /// The caption.
    Caption,
}

/// The name of a part.
pub open spec fn part_name(p: PlotPart) -> Seq<char> {
    match p {
        PlotPart::PlotBackground => "plot_background"@,
        PlotPart::PanelBackground => "panel_background"@,
        PlotPart::GridMajor => "grid_major"@,
        PlotPart::GridMinor => "grid_minor"@,
        PlotPart::Graticule => "graticule"@,
        PlotPart::PanelOutline => "panel_outline"@,
        PlotPart::AxisLine => "axis_line"@,
        PlotPart::AxisTick => "axis_tick"@,
        PlotPart::AxisMinorTick => "axis_minor_tick"@,
        PlotPart::AxisTickLabel => "axis_tick_label"@,
        PlotPart::AxisTitle => "axis_title"@,
        PlotPart::StripBackground => "strip_background"@,
        PlotPart::StripLabel => "strip_label"@,
        PlotPart::LegendBackground => "legend_background"@,
        PlotPart::LegendTitle => "legend_title"@,
        PlotPart::LegendKeyFrame => "legend_key_frame"@,
        PlotPart::LegendKey => "legend_key"@,
        PlotPart::LegendLabel => "legend_label"@,
        PlotPart::ColorbarBar => "colorbar_bar"@,
        PlotPart::ColorbarTick => "colorbar_tick"@,
        PlotPart::Title => "title"@,
        PlotPart::Subtitle => "subtitle"@,
        PlotPart::Caption => "caption"@,
    }
}

/// Every part, in declaration order.
pub open spec fn all_parts() -> Seq<PlotPart> {
    seq![
        PlotPart::PlotBackground,
        PlotPart::PanelBackground,
        PlotPart::GridMajor,
        PlotPart::GridMinor,
        PlotPart::Graticule,
        PlotPart::PanelOutline,
        PlotPart::AxisLine,
        PlotPart::AxisTick,
        PlotPart::AxisMinorTick,
        PlotPart::AxisTickLabel,
        PlotPart::AxisTitle,
        PlotPart::StripBackground,
        PlotPart::StripLabel,
        PlotPart::LegendBackground,
        PlotPart::LegendTitle,
        PlotPart::LegendKeyFrame,
        PlotPart::LegendKey,
        PlotPart::LegendLabel,
        PlotPart::ColorbarBar,
        PlotPart::ColorbarTick,
        PlotPart::Title,
        PlotPart::Subtitle,
        PlotPart::Caption,
    ]
}

impl PlotPart {
    /// The part's name, which may be matched on.
    pub fn name(self) -> (r: &'static str)
        ensures
            r@ == part_name(self),
    {
        match self {
            PlotPart::PlotBackground => "plot_background",
            PlotPart::PanelBackground => "panel_background",
            PlotPart::GridMajor => "grid_major",
            PlotPart::GridMinor => "grid_minor",
            PlotPart::Graticule => "graticule",
            PlotPart::PanelOutline => "panel_outline",
            PlotPart::AxisLine => "axis_line",
            PlotPart::AxisTick => "axis_tick",
            PlotPart::AxisMinorTick => "axis_minor_tick",
            PlotPart::AxisTickLabel => "axis_tick_label",
            PlotPart::AxisTitle => "axis_title",
            PlotPart::StripBackground => "strip_background",
            PlotPart::StripLabel => "strip_label",
            PlotPart::LegendBackground => "legend_background",
            PlotPart::LegendTitle => "legend_title",
            PlotPart::LegendKeyFrame => "legend_key_frame",
            PlotPart::LegendKey => "legend_key",
            PlotPart::LegendLabel => "legend_label",
            PlotPart::ColorbarBar => "colorbar_bar",
            PlotPart::ColorbarTick => "colorbar_tick",
            PlotPart::Title => "title",
            PlotPart::Subtitle => "subtitle",
            PlotPart::Caption => "caption",
        }
    }

    /// The part of this name.
    pub fn from_name(name: &str) -> (r: Option<PlotPart>)
        ensures
            match r {
                Some(p) => part_name(p) == name@,
                None => forall|p: PlotPart| #[trigger] part_name(p) != name@,
            },
    {
        if same_name(name, "plot_background") {
            Some(PlotPart::PlotBackground)
        } else if same_name(name, "panel_background") {
            Some(PlotPart::PanelBackground)
        } else if same_name(name, "grid_major") {
            Some(PlotPart::GridMajor)
        } else if same_name(name, "grid_minor") {
            Some(PlotPart::GridMinor)
        } else if same_name(name, "graticule") {
            Some(PlotPart::Graticule)
        } else if same_name(name, "panel_outline") {
            Some(PlotPart::PanelOutline)
        } else if same_name(name, "axis_line") {
            Some(PlotPart::AxisLine)
        } else if same_name(name, "axis_tick") {
            Some(PlotPart::AxisTick)
        } else if same_name(name, "axis_minor_tick") {
            Some(PlotPart::AxisMinorTick)
        } else if same_name(name, "axis_tick_label") {
            Some(PlotPart::AxisTickLabel)
        } else if same_name(name, "axis_title") {
            Some(PlotPart::AxisTitle)
        } else if same_name(name, "strip_background") {
            Some(PlotPart::StripBackground)
        } else if same_name(name, "strip_label") {
            Some(PlotPart::StripLabel)
        } else if same_name(name, "legend_background") {
            Some(PlotPart::LegendBackground)
        } else if same_name(name, "legend_title") {
            Some(PlotPart::LegendTitle)
        } else if same_name(name, "legend_key_frame") {
            Some(PlotPart::LegendKeyFrame)
        } else if same_name(name, "legend_key") {
            Some(PlotPart::LegendKey)
        } else if same_name(name, "legend_label") {
            Some(PlotPart::LegendLabel)
        } else if same_name(name, "colorbar_bar") {
            Some(PlotPart::ColorbarBar)
        } else if same_name(name, "colorbar_tick") {
            Some(PlotPart::ColorbarTick)
        } else if same_name(name, "title") {
            Some(PlotPart::Title)
        } else if same_name(name, "subtitle") {
            Some(PlotPart::Subtitle)
        } else if same_name(name, "caption") {
            Some(PlotPart::Caption)
        } else {
            None
        }
    }

    /// Every part, in declaration order.
    pub fn all() -> (r: Vec<PlotPart>)
        ensures
            r@ == all_parts(),
    {
        let r = vec![
            PlotPart::PlotBackground,
            PlotPart::PanelBackground,
            PlotPart::GridMajor,
            PlotPart::GridMinor,
            PlotPart::Graticule,
            PlotPart::PanelOutline,
            PlotPart::AxisLine,
            PlotPart::AxisTick,
            PlotPart::AxisMinorTick,
            PlotPart::AxisTickLabel,
            PlotPart::AxisTitle,
            PlotPart::StripBackground,
            PlotPart::StripLabel,
            PlotPart::LegendBackground,
            PlotPart::LegendTitle,
            PlotPart::LegendKeyFrame,
            PlotPart::LegendKey,
            PlotPart::LegendLabel,
            PlotPart::ColorbarBar,
            PlotPart::ColorbarTick,
            PlotPart::Title,
            PlotPart::Subtitle,
            PlotPart::Caption,
        ];
        assert(r@ =~= all_parts());
        r
    }
}

proof fn part_marks(p: PlotPart)
    ensures
        part_name(p).len() >= 5,
        match p {
            PlotPart::PlotBackground => part_name(p).len() == 15 && part_name(p)[0] == 'p' && part_name(p)[11] == 'o',
            PlotPart::PanelBackground => part_name(p).len() == 16 && part_name(p)[0] == 'p' && part_name(p)[12] == 'o',
            PlotPart::GridMajor => part_name(p).len() == 10 && part_name(p)[0] == 'g' && part_name(p)[6] == 'a',
            PlotPart::GridMinor => part_name(p).len() == 10 && part_name(p)[0] == 'g' && part_name(p)[6] == 'i',
            PlotPart::Graticule => part_name(p).len() == 9 && part_name(p)[0] == 'g' && part_name(p)[5] == 'c',
            PlotPart::PanelOutline => part_name(p).len() == 13 && part_name(p)[0] == 'p' && part_name(p)[9] == 'l',
            PlotPart::AxisLine => part_name(p).len() == 9 && part_name(p)[0] == 'a' && part_name(p)[5] == 'l',
            PlotPart::AxisTick => part_name(p).len() == 9 && part_name(p)[0] == 'a' && part_name(p)[5] == 't',
            PlotPart::AxisMinorTick => part_name(p).len() == 15 && part_name(p)[0] == 'a' && part_name(p)[11] == 't',
            PlotPart::AxisTickLabel => part_name(p).len() == 15 && part_name(p)[0] == 'a' && part_name(p)[11] == 'a',
            PlotPart::AxisTitle => part_name(p).len() == 10 && part_name(p)[0] == 'a' && part_name(p)[6] == 'i',
            PlotPart::StripBackground => part_name(p).len() == 16 && part_name(p)[0] == 's' && part_name(p)[12] == 'o',
            PlotPart::StripLabel => part_name(p).len() == 11 && part_name(p)[0] == 's' && part_name(p)[7] == 'a',
            PlotPart::LegendBackground => part_name(p).len() == 17 && part_name(p)[0] == 'l' && part_name(p)[13] == 'o',
            PlotPart::LegendTitle => part_name(p).len() == 12 && part_name(p)[0] == 'l' && part_name(p)[8] == 'i',
            PlotPart::LegendKeyFrame => part_name(p).len() == 16 && part_name(p)[0] == 'l' && part_name(p)[12] == 'r',
            PlotPart::LegendKey => part_name(p).len() == 10 && part_name(p)[0] == 'l' && part_name(p)[6] == '_',
            PlotPart::LegendLabel => part_name(p).len() == 12 && part_name(p)[0] == 'l' && part_name(p)[8] == 'a',
            PlotPart::ColorbarBar => part_name(p).len() == 12 && part_name(p)[0] == 'c' && part_name(p)[8] == '_',
            PlotPart::ColorbarTick => part_name(p).len() == 13 && part_name(p)[0] == 'c' && part_name(p)[9] == 't',
            PlotPart::Title => part_name(p).len() == 5 && part_name(p)[0] == 't' && part_name(p)[1] == 'i',
            PlotPart::Subtitle => part_name(p).len() == 8 && part_name(p)[0] == 's' && part_name(p)[4] == 'i',
            PlotPart::Caption => part_name(p).len() == 7 && part_name(p)[0] == 'c' && part_name(p)[3] == 't',
        },
{
    reveal_strlit("plot_background");
    reveal_strlit("panel_background");
    reveal_strlit("grid_major");
    reveal_strlit("grid_minor");
    reveal_strlit("graticule");
    reveal_strlit("panel_outline");
    reveal_strlit("axis_line");
    reveal_strlit("axis_tick");
    reveal_strlit("axis_minor_tick");
    reveal_strlit("axis_tick_label");
    reveal_strlit("axis_title");
    reveal_strlit("strip_background");
    reveal_strlit("strip_label");
    reveal_strlit("legend_background");
    reveal_strlit("legend_title");
    reveal_strlit("legend_key_frame");
    reveal_strlit("legend_key");
    reveal_strlit("legend_label");
    reveal_strlit("colorbar_bar");
    reveal_strlit("colorbar_tick");
    reveal_strlit("title");
    reveal_strlit("subtitle");
    reveal_strlit("caption");
}

/// No two parts share a name, so a name leads back to the part it came from.
pub proof fn part_names_differ(a: PlotPart, b: PlotPart)
    requires
        part_name(a) == part_name(b),
    ensures
        a == b,
{
    part_marks(a);
    part_marks(b);
}

/// Every part is listed.
pub proof fn every_part_is_listed(p: PlotPart)
    ensures
        all_parts().contains(p),
{
    assert(all_parts()[0] == PlotPart::PlotBackground);
    assert(all_parts()[1] == PlotPart::PanelBackground);
    assert(all_parts()[2] == PlotPart::GridMajor);
    assert(all_parts()[3] == PlotPart::GridMinor);
    assert(all_parts()[4] == PlotPart::Graticule);
    assert(all_parts()[5] == PlotPart::PanelOutline);
    assert(all_parts()[6] == PlotPart::AxisLine);
    assert(all_parts()[7] == PlotPart::AxisTick);
    assert(all_parts()[8] == PlotPart::AxisMinorTick);
    assert(all_parts()[9] == PlotPart::AxisTickLabel);
    assert(all_parts()[10] == PlotPart::AxisTitle);
    assert(all_parts()[11] == PlotPart::StripBackground);
    assert(all_parts()[12] == PlotPart::StripLabel);
    assert(all_parts()[13] == PlotPart::LegendBackground);
    assert(all_parts()[14] == PlotPart::LegendTitle);
    assert(all_parts()[15] == PlotPart::LegendKeyFrame);
    assert(all_parts()[16] == PlotPart::LegendKey);
    assert(all_parts()[17] == PlotPart::LegendLabel);
    assert(all_parts()[18] == PlotPart::ColorbarBar);
    assert(all_parts()[19] == PlotPart::ColorbarTick);
    assert(all_parts()[20] == PlotPart::Title);
    assert(all_parts()[21] == PlotPart::Subtitle);
    assert(all_parts()[22] == PlotPart::Caption);
}

/// Whether `s` is a scope of kind `kind` with this name and number.
pub open spec fn is_scope(
    s: PickScope,
    kind: Seq<char>,
    name: Option<Seq<char>>,
    index: Option<u32>,
    target: bool,
) -> bool {
    &&& s.kind@ == kind
    &&& name_in(Some(s)) == name
    &&& s.index == index
    &&& s.target == target
}

/// A whole composition, named by its id.
pub fn composition_scope(id: &str) -> (r: PickScope)
    ensures
        is_scope(r, kind::COMPOSITION@, Some(id@), None, false),
{
    PickScope::group(kind::COMPOSITION).with_name(id)
}

/// One plot, named by its patch and numbered within it.
pub fn plot_scope(patch_id: &str, index_in_patch: u32) -> (r: PickScope)
    ensures
        is_scope(r, kind::PLOT@, Some(patch_id@), Some(index_in_patch), false),
{
    PickScope::group(kind::PLOT).with_name(patch_id).with_index(index_in_patch)
}

/// A region of the anatomy.
pub fn region_scope(slot: Slot) -> (r: PickScope)
    ensures
        is_scope(r, kind::REGION@, Some(slot_name(slot)), None, false),
{
    PickScope::group(kind::REGION).with_name(slot.name())
}

/// A region outside the fixed anatomy.
pub fn named_region_scope(name: &str) -> (r: PickScope)
    ensures
        is_scope(r, kind::REGION@, Some(name@), None, false),
{
    PickScope::group(kind::REGION).with_name(name)
}

/// One geom of a plot.
pub fn geom_scope(id: GeomId) -> (r: PickScope)
    ensures
        is_scope(r, kind::GEOM@, None, Some(id.0), false),
{
    PickScope::group(kind::GEOM).with_index(id.raw())
}

/// One axis, with the scale that drives it.
pub fn axis_scope(id: Option<AxisId>, scale_name: Option<&str>) -> (r: PickScope)
    ensures
        is_scope(
            r,
            kind::AXIS@,
            text_of(scale_name),
            match id {
                Some(a) => Some(a.0),
                None => None,
            },
            false,
        ),
{
    let s = PickScope::group(kind::AXIS);
    let named = match scale_name {
        Some(name) => s.with_name(name),
        None => s,
    };
    match id {
        Some(a) => named.with_index(a.raw()),
        None => named,
    }
}

/// One legend block, numbered within the stack of its side.
pub fn legend_scope(block: u32, domain_scale: &str) -> (r: PickScope)
    ensures
        is_scope(r, kind::LEGEND@, Some(domain_scale@), Some(block), false),
{
    PickScope::group(kind::LEGEND).with_name(domain_scale).with_index(block)
}

/// A piece of chrome, which can be hit.
pub fn part_scope(part: PlotPart) -> (r: PickScope)
    ensures
        is_scope(r, kind::PART@, Some(part_name(part)), None, true),
{
    PickScope::target(kind::PART).with_name(part.name())
}

/// A piece of chrome that there is one of for each channel.
pub fn part_scope_for_channel(part: PlotPart, channel: u8) -> (r: PickScope)
    ensures
        is_scope(r, kind::PART@, Some(part_name(part)), Some(channel as u32), true),
{
    PickScope::target(kind::PART).with_name(part.name()).with_index(channel as u32)
}

/// An ordinal within a part.
pub fn item_scope(index: u32) -> (r: PickScope)
    ensures
        is_scope(r, kind::ITEM@, None, Some(index), true),
{
    PickScope::target(kind::ITEM).with_index(index)
}

/// A pick path, read as a path through a plot. Where a kind occurs more than
/// once, the innermost scope of it counts.
#[derive(Clone, Copy, Debug)]
pub struct PlotPath<'a>(pub PickPath<'a>);

/// The scope that says which scale a path is about: that of the axis, or
/// without one that of the legend.
pub open spec fn scaled_scope(s: Seq<PickScope>) -> Option<PickScope> {
    match scope_of_kind(s, kind::AXIS@) {
        Some(a) => Some(a),
        None => scope_of_kind(s, kind::LEGEND@),
    }
}

impl<'a> PlotPath<'a> {
    /// Reads a path.
    pub fn new(path: PickPath<'a>) -> (r: PlotPath<'a>)
        ensures
            r.0 == path,
    {
        PlotPath(path)
    }

    /// The path itself.
    pub fn raw(&self) -> (r: PickPath<'a>)
        ensures
            r == self.0,
    {
        self.0
    }

    fn name_of(&self, kind: &str) -> (r: Option<&'a str>)
        ensures
            text_of(r) == name_in(scope_of_kind(self.0.scopes@, kind@)),
    {
        match self.0.find(kind) {
            Some(s) => s.name(),
            None => None,
        }
    }

    fn index_of(&self, kind: &str) -> (r: Option<u32>)
        ensures
            r == index_in(scope_of_kind(self.0.scopes@, kind@)),
    {
        match self.0.find(kind) {
            Some(s) => s.index(),
            None => None,
        }
    }

    /// The id of the composition.
    pub fn composition(&self) -> (r: Option<&'a str>)
        ensures
            text_of(r) == name_in(scope_of_kind(self.0.scopes@, kind::COMPOSITION@)),
    {
        self.name_of(kind::COMPOSITION)
    }

    /// The patch of the plot, and the plot's number within it; nought if it has
    /// none.
    pub fn plot(&self) -> (r: Option<(&'a str, u32)>)
        ensures
            match r {
                Some((name, index)) => name_in(scope_of_kind(self.0.scopes@, kind::PLOT@)) == Some(
                    name@,
                ) && index == (match index_in(scope_of_kind(self.0.scopes@, kind::PLOT@)) {
                    Some(i) => i,
                    None => 0,
                }),
                None => name_in(scope_of_kind(self.0.scopes@, kind::PLOT@)) is None,
            },
    {
        match self.name_of(kind::PLOT) {
            Some(name) => match self.index_of(kind::PLOT) {
                Some(i) => Some((name, i)),
                None => Some((name, 0)),
            },
            None => None,
        }
    }

    /// The region, if it is one of the anatomy.
    pub fn region(&self) -> (r: Option<Slot>)
        ensures
            match r {
                Some(s) => name_in(scope_of_kind(self.0.scopes@, kind::REGION@)) == Some(
                    slot_name(s),
                ),
                None => forall|s: Slot|
                    name_in(scope_of_kind(self.0.scopes@, kind::REGION@)) != Some(
                        #[trigger] slot_name(s),
                    ),
            },
    {
        match self.region_name() {
            Some(name) => Slot::from_name(name),
            None => None,
        }
    }

    /// The name of the region, of the anatomy or not.
    pub fn region_name(&self) -> (r: Option<&'a str>)
        ensures
            text_of(r) == name_in(scope_of_kind(self.0.scopes@, kind::REGION@)),
    {
        self.name_of(kind::REGION)
    }

    /// The geom, for a mark.
    pub fn geom(&self) -> (r: Option<GeomId>)
        ensures
            r == (match index_in(scope_of_kind(self.0.scopes@, kind::GEOM@)) {
                Some(i) => Some(GeomId(i)),
                None => None,
            }),
    {
        match self.index_of(kind::GEOM) {
            Some(i) => Some(GeomId::new(i)),
            None => None,
        }
    }

    /// The axis, for axis chrome.
    pub fn axis(&self) -> (r: Option<AxisId>)
        ensures
            r == (match index_in(scope_of_kind(self.0.scopes@, kind::AXIS@)) {
                Some(i) => Some(AxisId(i)),
                None => None,
            }),
    {
        match self.index_of(kind::AXIS) {
            Some(i) => Some(AxisId::new(i)),
            None => None,
        }
    }

    /// The name of the scale that drives the axis, or without an axis the
    /// legend.
    pub fn scale(&self) -> (r: Option<&'a str>)
        ensures
            text_of(r) == name_in(scaled_scope(self.0.scopes@)),
    {
        match self.0.find(kind::AXIS) {
            Some(s) => s.name(),
            None => self.name_of(kind::LEGEND),
        }
    }

    /// The legend block, within the stack of its side.
    pub fn legend_block(&self) -> (r: Option<u32>)
        ensures
            r == index_in(scope_of_kind(self.0.scopes@, kind::LEGEND@)),
    {
        self.index_of(kind::LEGEND)
    }

    /// The piece of chrome.
    pub fn part(&self) -> (r: Option<PlotPart>)
        ensures
            match r {
                Some(p) => name_in(scope_of_kind(self.0.scopes@, kind::PART@)) == Some(
                    part_name(p),
                ),
                None => forall|p: PlotPart|
                    name_in(scope_of_kind(self.0.scopes@, kind::PART@)) != Some(
                        #[trigger] part_name(p),
                    ),
            },
    {
        match self.name_of(kind::PART) {
            Some(name) => PlotPart::from_name(name),
            None => None,
        }
    }

    /// The channel of a piece of chrome that there is one of for each channel.
    pub fn part_channel(&self) -> (r: Option<u8>)
        ensures
            r == (match index_in(scope_of_kind(self.0.scopes@, kind::PART@)) {
                Some(i) => if i <= 255 {
                    Some(i as u8)
                } else {
                    None
                },
                None => None,
            }),
    {
        match self.index_of(kind::PART) {
            Some(i) => if i <= 255 {
                Some(i as u8)
            } else {
                None
            },
            None => None,
        }
    }

    /// The ordinal within the part.
    pub fn item(&self) -> (r: Option<u32>)
        ensures
            r == index_in(scope_of_kind(self.0.scopes@, kind::ITEM@)),
    {
        self.index_of(kind::ITEM)
    }
}

/// The channel and side that the theme files a region's axis chrome under.
pub open spec fn channel_side_of(slot: Slot) -> Option<(u8, u8)> {
    match slot {
        Slot::AxisBottom => Some((0, 0)),
        Slot::AxisBottomTitle => Some((0, 0)),
        Slot::AxisTop => Some((0, 1)),
        Slot::AxisTopTitle => Some((0, 1)),
        Slot::AxisLeft => Some((1, 0)),
        Slot::AxisLeftTitle => Some((1, 0)),
        Slot::AxisRight => Some((1, 1)),
        Slot::AxisRightTitle => Some((1, 1)),
        _ => None,
    }
}

/// The channel and side that the theme files a region's axis chrome under.
pub fn theme_channel_side(slot: Slot) -> (r: Option<(u8, u8)>)
    ensures
        r == channel_side_of(slot),
{
    match slot {
        Slot::AxisBottom | Slot::AxisBottomTitle => Some((0, 0)),
        Slot::AxisTop | Slot::AxisTopTitle => Some((0, 1)),
        Slot::AxisLeft | Slot::AxisLeftTitle => Some((1, 0)),
        Slot::AxisRight | Slot::AxisRightTitle => Some((1, 1)),
        _ => None,
    }
}

/// Pushing a scope makes it the innermost of its kind and changes what no other
/// kind finds.
pub proof fn innermost_scope_wins(s: Seq<PickScope>, p: PickScope, k: Seq<char>)
    ensures
        p.kind@ == k ==> scope_of_kind(s.push(p), k) == Some(p),
        p.kind@ != k ==> scope_of_kind(s.push(p), k) == scope_of_kind(s, k),
{
    assert(s.push(p).drop_last() =~= s);
}

/// What is found is the last scope of its kind; nothing is found only where
/// there is none.
pub proof fn found_scope_is_innermost(s: Seq<PickScope>, k: Seq<char>)
    ensures
        match scope_of_kind(s, k) {
            Some(p) => exists|i: int| #[trigger] innermost(s, k, i) && s[i] == p,
            None => !has_kind(s, k),
        },
    decreases s.len(),
{
    if s.len() > 0 {
        if s.last().kind@ == k {
            assert(innermost(s, k, s.len() - 1));
        } else {
            found_scope_is_innermost(s.drop_last(), k);
            match scope_of_kind(s.drop_last(), k) {
                Some(p) => {
                    let i = choose|i: int|
                        #[trigger] innermost(s.drop_last(), k, i) && s.drop_last()[i] == p;
                    assert forall|j: int| i < j < s.len() implies (#[trigger] s[j]).kind@ != k by {
                        if j < s.len() - 1 {
                            assert(s.drop_last()[j].kind@ != k);
                        }
                    }
                    assert(innermost(s, k, i));
                },
                None => {
                    if has_kind(s, k) {
                        let i = choose|i: int| 0 <= i < s.len() && (#[trigger] s[i]).kind@ == k;
                        assert(s.drop_last()[i].kind@ == k);
                    }
                },
            }
        }
    }
}

/// A full path through a plot reads back as the parts it was made of.
pub proof fn full_path_reads_back(
    composition: PickScope,
    plot: PickScope,
    region: PickScope,
    axis: PickScope,
    part: PickScope,
    item: PickScope,
)
    requires
        composition.kind@ == kind::COMPOSITION@,
        plot.kind@ == kind::PLOT@,
        region.kind@ == kind::REGION@,
        axis.kind@ == kind::AXIS@,
        part.kind@ == kind::PART@,
        item.kind@ == kind::ITEM@,
    ensures
        ({
            let path = seq![composition, plot, region, axis, part, item];
            &&& scope_of_kind(path, kind::COMPOSITION@) == Some(composition)
            &&& scope_of_kind(path, kind::PLOT@) == Some(plot)
            &&& scope_of_kind(path, kind::REGION@) == Some(region)
            &&& scope_of_kind(path, kind::AXIS@) == Some(axis)
            &&& scope_of_kind(path, kind::PART@) == Some(part)
            &&& scope_of_kind(path, kind::ITEM@) == Some(item)
            &&& scope_of_kind(path, kind::GEOM@) is None
            &&& scope_of_kind(path, kind::LEGEND@) is None
        }),
{
    kind::kinds_differ();
    let p0 = Seq::<PickScope>::empty();
    let p1 = p0.push(composition);
    let p2 = p1.push(plot);
    let p3 = p2.push(region);
    let p4 = p3.push(axis);
    let p5 = p4.push(part);
    let p6 = p5.push(item);
    assert(p6 =~= seq![composition, plot, region, axis, part, item]);
    assert forall|k: Seq<char>| true implies {
        &&& #[trigger] scope_of_kind(p6, k) == (if item.kind@ == k {
            Some(item)
        } else if part.kind@ == k {
            Some(part)
        } else if axis.kind@ == k {
            Some(axis)
        } else if region.kind@ == k {
            Some(region)
        } else if plot.kind@ == k {
            Some(plot)
        } else if composition.kind@ == k {
            Some(composition)
        } else {
            None
        })
    } by {
        innermost_scope_wins(p5, item, k);
        innermost_scope_wins(p4, part, k);
        innermost_scope_wins(p3, axis, k);
        innermost_scope_wins(p2, region, k);
        innermost_scope_wins(p1, plot, k);
        innermost_scope_wins(p0, composition, k);
    }
}

} // verus!
