//! A geom of any kind.

use vstd::prelude::*;

use crate::geom::grouped::diffed_in_marks;
use crate::geom::ribbon_bspline::RibbonBSplineGeom;
use crate::geom::segment::SegmentGeom;
use crate::geom::state::GeomState;
use crate::geom::text::TextGeom;
use crate::geom::text_fit::TextFitGeom;
use crate::geom::text_path::TextPathGeom;
use crate::geom::wedge::WedgeGeom;
use crate::names::same_name;

verus! {

/// A geom of any kind.
pub enum AnyGeom {
    /// Lines from point to point.
    Segment(SegmentGeom),
    /// Slices of disks.
    Wedge(WedgeGeom),
    /// Labels.
    Text(TextGeom),
    /// Labels fitted into rectangles.
    TextFit(TextFitGeom),
    /// Labels along curves.
    TextPath(TextPathGeom),
    /// Bands between curves.
    RibbonBSpline(RibbonBSplineGeom),
}

impl AnyGeom {
    /// The keys, channels and frame history.
    pub open spec fn spec_state(self) -> GeomState {
        match self {
            AnyGeom::Segment(g) => g.state,
            AnyGeom::Wedge(g) => g.state,
            AnyGeom::Text(g) => g.state,
            AnyGeom::TextFit(g) => g.state,
            AnyGeom::TextPath(g) => g.state,
            AnyGeom::RibbonBSpline(g) => g.state,
        }
    }

    /// Whether the geom's diff was brought up to date: row by row, or mark by
    /// mark where several rows make a mark.
    pub open spec fn rediffed_from(self, before: AnyGeom) -> bool {
        match (self, before) {
            (AnyGeom::Segment(a), AnyGeom::Segment(b)) => rows_rediffed(a.state, b.state),
            (AnyGeom::Wedge(a), AnyGeom::Wedge(b)) => rows_rediffed(a.state, b.state),
            (AnyGeom::Text(a), AnyGeom::Text(b)) => {
                &&& rows_rediffed(a.state, b.state)
                &&& a.rich_sheet == b.rich_sheet
                &&& a.rich_cache == b.rich_cache
                &&& a.rich_outline_sheets == b.rich_outline_sheets
            },
            (AnyGeom::TextFit(a), AnyGeom::TextFit(b)) => {
                &&& rows_rediffed(a.state, b.state)
                &&& a.rich_sheet == b.rich_sheet
                &&& a.rich_cache == b.rich_cache
                &&& a.rich_outline_sheets == b.rich_outline_sheets
            },
            (AnyGeom::TextPath(a), AnyGeom::TextPath(b)) => {
                &&& b.state.dirty ==> diffed_in_marks(a.state, b.state, a.marks@)
                &&& !b.state.dirty ==> a == b
                &&& a.rich_sheet == b.rich_sheet
                &&& a.rich_cache == b.rich_cache
            },
            (AnyGeom::RibbonBSpline(a), AnyGeom::RibbonBSpline(b)) => {
                &&& b.state.dirty ==> diffed_in_marks(a.state, b.state, a.marks@)
                &&& !b.state.dirty ==> a == b
                &&& a.orientation == b.orientation
            },
            _ => false,
        }
    }

    /// Whether a channel that has no scale of its own is shown with another's:
    /// where a line or a rectangle ends lies on the scales of where it starts.
    pub open spec fn stand_in(self, channel: Seq<char>) -> Option<Seq<char>> {
        if !(self is Segment || self is TextFit) {
            None
        } else if channel == "x2"@ {
            Some("x"@)
        } else if channel == "y2"@ {
            Some("y"@)
        } else {
            None
        }
    }

    /// The channel whose scale stands in for that of another, which has none.
    pub fn fallback(&self, channel: &str) -> (r: Option<&'static str>)
        ensures
            match r {
                Some(c) => self.stand_in(channel@) == Some(c@),
                None => self.stand_in(channel@) is None,
            },
    {
        let ends = match self {
            AnyGeom::Segment(_) | AnyGeom::TextFit(_) => true,
            _ => false,
        };
        if !ends {
            None
        } else if same_name(channel, "x2") {
            Some("x")
        } else if same_name(channel, "y2") {
            Some("y")
        } else {
            None
        }
    }

    /// The geom's kind, where it has a name.
    pub fn kind(&self) -> (r: Option<&'static str>)
        ensures
            match *self {
                AnyGeom::Text(_) => r is Some && r->0@ == "text"@,
                AnyGeom::TextFit(_) => r is Some && r->0@ == "text-fit"@,
                AnyGeom::TextPath(_) => r is Some && r->0@ == "text-path"@,
                _ => r is None,
            },
    {
        match self {
            AnyGeom::Text(g) => g.kind(),
            AnyGeom::TextFit(g) => g.kind(),
            AnyGeom::TextPath(g) => g.kind(),
            _ => None,
        }
    }

    /// The keys, channels and frame history.
    pub fn state(&self) -> (r: &GeomState)
        ensures
            *r == self.spec_state(),
    {
        match self {
            AnyGeom::Segment(g) => &g.state,
            AnyGeom::Wedge(g) => &g.state,
            AnyGeom::Text(g) => &g.state,
            AnyGeom::TextFit(g) => &g.state,
            AnyGeom::TextPath(g) => &g.state,
            AnyGeom::RibbonBSpline(g) => &g.state,
        }
    }

    /// Brings the geom's diff up to date.
    pub fn rebuild_diff_against_previous(&mut self)
        ensures
            final(self).rediffed_from(*old(self)),
    {
        match self {
            AnyGeom::Segment(g) => g.state.rebuild_diff_against_previous(),
            AnyGeom::Wedge(g) => g.state.rebuild_diff_against_previous(),
            AnyGeom::Text(g) => g.state.rebuild_diff_against_previous(),
            AnyGeom::TextFit(g) => g.state.rebuild_diff_against_previous(),
            AnyGeom::TextPath(g) => g.rebuild_diff_against_previous(),
            AnyGeom::RibbonBSpline(g) => g.rebuild_diff_against_previous(),
        }
    }
}

/// Whether `after` is `before`, diffed row by row. Nothing was done where the
/// diff was up to date.
pub open spec fn rows_rediffed(after: GeomState, before: GeomState) -> bool {
    &&& !before.dirty ==> after == before
    &&& before.dirty ==> {
        &&& after.diffed(before)
        &&& after.prev_keys == before.keys
        &&& after.prev_channels@ == before.channels@
        &&& after.keys == before.keys
        &&& after.channels == before.channels
        &&& after.declared == before.declared
        &&& !after.dirty
    }
}

} // verus!
