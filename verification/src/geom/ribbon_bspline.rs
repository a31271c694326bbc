//! Filled bands between two curves, one for each mark.
//!
//! Rows with one key make a mark. The first edge of its band runs along `x` and
//! `y`. Where the second runs depends on which channels are there: along `x` and
//! `y2`, along `x2` and `y`, or along `x2` and `y2`. Either edge is a spline, its
//! rows the control points, unless there are too few of them for its degree, and
//! then it is straight from point to point.

use vstd::prelude::*;

use crate::channel::{CatalogEntry, Channel, ChannelDecl, ExpectedOutput, Keys};
use crate::expr::{
    c_and, c_finite, c_finite_positive, c_panel_open, c_within, e_add, e_clamp, e_div, e_half,
    e_int, e_mul, e_px, e_sub, value, within, Cond, Env, Expr, Quantity,
};
use crate::geom::builder::GeomBuilder;
use crate::geom::error::{BuildError, BuildFault};
use crate::geom::grouped::{
    are_drawn_marks, count_marks, diff_in_marks, diffed_in_marks, is_mark_count,
};
use crate::geom::marker::{end_marker, marker_at_end, trimmed, trimmed_off, EndMarker};
use crate::geom::state::{
    build_fault, buildable, declares, finalize_state, freshly_built, has_x_and, keys_built,
    require_x_and_siblings, x_and_fault, GeomState, KeysStrategy,
};
use crate::marks::{are_marks_of, build_marks, MarkSlot};
use crate::names::same_name;
use crate::num::Num;
use crate::order::{ascending, is_ascending, sorted, sorting_keeps_numbers};
use crate::pick::PickId;
use crate::projection::Fractions;
use crate::resolve::{
    cap_named, join_named, pick_for, Bound, ScaleOutputs, Source, UNDEFINED_BITS,
};
use crate::scene::{Paint, Pen, Point};
use crate::theme::RibbonTheme;
use crate::value::{Color, DataColumn};

verus! {

/// The channels that the geom reads.
pub open spec fn catalog() -> Seq<CatalogEntry> {
    seq![
        ("x", ExpectedOutput::Numbers),
        ("y", ExpectedOutput::Numbers),
        ("x2", ExpectedOutput::Numbers),
        ("y2", ExpectedOutput::Numbers),
        ("degree", ExpectedOutput::Numbers),
        ("interpolation", ExpectedOutput::Strings),
        ("fill", ExpectedOutput::Colors),
        ("alpha", ExpectedOutput::Numbers),
        ("pick_id", ExpectedOutput::Numbers),
        ("stroke", ExpectedOutput::Colors),
        ("linewidth", ExpectedOutput::Numbers),
        ("linetype", ExpectedOutput::Linetypes),
        ("dash_offset", ExpectedOutput::Numbers),
        ("cap", ExpectedOutput::Strings),
        ("join", ExpectedOutput::Strings),
        ("clip_start_radius", ExpectedOutput::Numbers),
        ("clip_end_radius", ExpectedOutput::Numbers),
        ("start_marker", ExpectedOutput::Strings),
        ("end_marker", ExpectedOutput::Strings),
        ("start_marker_size", ExpectedOutput::Numbers),
        ("end_marker_size", ExpectedOutput::Numbers),
        ("start_marker_fill", ExpectedOutput::Colors),
        ("end_marker_fill", ExpectedOutput::Colors),
        ("start_marker_invert", ExpectedOutput::Any),
        ("end_marker_invert", ExpectedOutput::Any),
        ("stroke2", ExpectedOutput::Colors),
        ("linewidth2", ExpectedOutput::Numbers),
        ("linetype2", ExpectedOutput::Linetypes),
        ("dash_offset2", ExpectedOutput::Numbers),
        ("cap2", ExpectedOutput::Strings),
        ("join2", ExpectedOutput::Strings),
        ("clip_start_radius2", ExpectedOutput::Numbers),
        ("clip_end_radius2", ExpectedOutput::Numbers),
        ("start_marker2", ExpectedOutput::Strings),
        ("end_marker2", ExpectedOutput::Strings),
        ("start_marker_size2", ExpectedOutput::Numbers),
        ("end_marker_size2", ExpectedOutput::Numbers),
        ("start_marker_fill2", ExpectedOutput::Colors),
        ("end_marker_fill2", ExpectedOutput::Colors),
        ("start_marker_invert2", ExpectedOutput::Any),
        ("end_marker_invert2", ExpectedOutput::Any),
    ]
}

fn catalog_entries() -> (r: Vec<CatalogEntry>)
    ensures
        r@ == catalog(),
{
    let r: Vec<CatalogEntry> = vec![
        ("x", ExpectedOutput::Numbers),
        ("y", ExpectedOutput::Numbers),
        ("x2", ExpectedOutput::Numbers),
        ("y2", ExpectedOutput::Numbers),
        ("degree", ExpectedOutput::Numbers),
        ("interpolation", ExpectedOutput::Strings),
        ("fill", ExpectedOutput::Colors),
        ("alpha", ExpectedOutput::Numbers),
        ("pick_id", ExpectedOutput::Numbers),
        ("stroke", ExpectedOutput::Colors),
        ("linewidth", ExpectedOutput::Numbers),
        ("linetype", ExpectedOutput::Linetypes),
        ("dash_offset", ExpectedOutput::Numbers),
        ("cap", ExpectedOutput::Strings),
        ("join", ExpectedOutput::Strings),
        ("clip_start_radius", ExpectedOutput::Numbers),
        ("clip_end_radius", ExpectedOutput::Numbers),
        ("start_marker", ExpectedOutput::Strings),
        ("end_marker", ExpectedOutput::Strings),
        ("start_marker_size", ExpectedOutput::Numbers),
        ("end_marker_size", ExpectedOutput::Numbers),
        ("start_marker_fill", ExpectedOutput::Colors),
        ("end_marker_fill", ExpectedOutput::Colors),
        ("start_marker_invert", ExpectedOutput::Any),
        ("end_marker_invert", ExpectedOutput::Any),
        ("stroke2", ExpectedOutput::Colors),
        ("linewidth2", ExpectedOutput::Numbers),
        ("linetype2", ExpectedOutput::Linetypes),
        ("dash_offset2", ExpectedOutput::Numbers),
        ("cap2", ExpectedOutput::Strings),
        ("join2", ExpectedOutput::Strings),
        ("clip_start_radius2", ExpectedOutput::Numbers),
        ("clip_end_radius2", ExpectedOutput::Numbers),
        ("start_marker2", ExpectedOutput::Strings),
        ("end_marker2", ExpectedOutput::Strings),
        ("start_marker_size2", ExpectedOutput::Numbers),
        ("end_marker_size2", ExpectedOutput::Numbers),
        ("start_marker_fill2", ExpectedOutput::Colors),
        ("end_marker_fill2", ExpectedOutput::Colors),
        ("start_marker_invert2", ExpectedOutput::Any),
        ("end_marker_invert2", ExpectedOutput::Any),
    ];
    assert(r@ =~= catalog());
    r
}

/// Which way a band lies.
#[derive(Clone, Copy, Debug, PartialEq, Eq, Structural)]
pub enum Orientation {
    /// The second edge lies above or below the first.
    Horizontal,
    /// The second edge lies left or right of the first.
    Vertical,
    /// The second edge lies anywhere.
    Free,
}

/// The columns that have to be as long as `x`.
pub open spec fn required() -> Seq<&'static str> {
    seq!["y"]
}

/// How many rows the channels have.
pub open spec fn rows_of(channels: Map<Seq<char>, Channel>) -> nat {
    channels["x"@].column()->0.count()
}

/// Which way a band with these channels lies. Without a second edge it lies
/// nowhere.
pub open spec fn orientation_of(channels: Map<Seq<char>, Channel>) -> Option<Orientation> {
    match (channels.contains_key("x2"@), channels.contains_key("y2"@)) {
        (false, false) => None,
        (true, false) => Some(Orientation::Vertical),
        (false, true) => Some(Orientation::Horizontal),
        (true, true) => Some(Orientation::Free),
    }
}

/// Whether a geom of `n` rows can be built from these channels. The second edge
/// may be a constant.
pub open spec fn can_build(
    keys: Option<DataColumn>,
    channels: Map<Seq<char>, Channel>,
    n: nat,
) -> bool {
    &&& has_x_and(channels, required(), n)
    &&& orientation_of(channels) is Some
    &&& buildable(keys, channels, n, catalog())
}

/// Whether no geom can be built, and `e` says why.
pub open spec fn rejected(
    keys: Option<DataColumn>,
    channels: Map<Seq<char>, Channel>,
    e: BuildFault,
) -> bool {
    let n = rows_of(channels);
    &&& !can_build(keys, channels, n)
    &&& if !has_x_and(channels, required(), n) {
        x_and_fault(channels, required(), "RibbonBSplineGeom"@, e)
    } else if orientation_of(channels) is None {
        e == (BuildFault::NoSecondEdge { label: "RibbonBSplineGeom"@ })
    } else {
        build_fault(keys, channels, n, catalog(), "RibbonBSplineGeom"@, e)
    }
}

/// Filled bands between two curves, one for each mark.
pub struct RibbonBSplineGeom {
    /// The keys, channels and frame history.
    pub state: GeomState,
    /// The marks, where they are known.
    pub marks: Vec<MarkSlot>,
    /// Which way the bands lie.
    pub orientation: Orientation,
}

impl RibbonBSplineGeom {
    /// Builds the geom.
    pub fn build_from(builder: GeomBuilder) -> (r: Result<RibbonBSplineGeom, BuildError>)
        ensures
            match r {
                Ok(g) => {
                    &&& can_build(builder.keys, builder.channels@, g.state.keys.count())
                    &&& freshly_built(
                        g.state,
                        builder.keys,
                        builder.channels@,
                        g.state.keys.count(),
                        KeysStrategy::OneMark,
                        g.state.declared@,
                    )
                    &&& declares(g.state.declared@, builder.channels@, catalog())
                    &&& g.state.wf()
                    &&& g.marks@.len() == 0
                    &&& orientation_of(builder.channels@) == Some(g.orientation)
                },
                Err(e) => rejected(builder.keys, builder.channels@, e@),
            },
    {
        let (keys_opt, channels) = builder.into_parts();
        let siblings = ["y"];
        assert(siblings@ =~= required());
        let n: usize = match require_x_and_siblings(&channels, &siblings, "RibbonBSplineGeom") {
            Ok(n) => n,
            Err(e) => return Err(e),
        };
        let orientation = match (channels.contains("x2"), channels.contains("y2")) {
            (false, false) => {
                return Err(BuildError::NoSecondEdge { label: "RibbonBSplineGeom".to_owned() });
            },
            (true, false) => Orientation::Vertical,
            (false, true) => Orientation::Horizontal,
            (true, true) => Orientation::Free,
        };
        let entries = catalog_entries();
        match finalize_state(
            keys_opt,
            channels,
            n,
            KeysStrategy::OneMark,
            entries.as_slice(),
            "RibbonBSplineGeom",
        ) {
            Ok(state) => Ok(RibbonBSplineGeom { state, marks: Vec::new(), orientation }),
            Err(e) => Err(e),
        }
    }

    /// The marks of the current keys: each run of equal keys is one.
    pub fn build_marks(&self) -> (r: Vec<MarkSlot>)
        ensures
            are_marks_of(r@, self.state.keys),
    {
        build_marks(&self.state.keys)
    }

    /// How many marks there are.
    pub fn mark_count(&self) -> (r: usize)
        ensures
            is_mark_count(r as int, self.marks@, self.state.keys),
    {
        count_marks(&self.marks, &self.state.keys)
    }

    /// Forgets the marks.
    pub fn invalidate_caches(&mut self)
        ensures
            final(self).marks@.len() == 0,
            final(self).state == old(self).state,
            final(self).orientation == old(self).orientation,
    {
        self.marks = Vec::new();
    }

    /// Diffs the marks against those of the frame before and makes this frame
    /// the one before. Nothing is done where the diff is up to date.
    pub fn rebuild_diff_against_previous(&mut self)
        ensures
            old(self).state.dirty ==> diffed_in_marks(
                final(self).state,
                old(self).state,
                final(self).marks@,
            ),
            !old(self).state.dirty ==> *final(self) == *old(self),
            final(self).orientation == old(self).orientation,
    {
        if let Some(marks) = diff_in_marks(&mut self.state) {
            self.marks = marks;
        }
    }
}

impl RibbonBSplineGeom {
    /// Nothing to build from yet.
    pub fn builder() -> (r: GeomBuilder)
        ensures
            r.keys is None,
            r.channels@ == Map::<Seq<char>, Channel>::empty(),
    {
        GeomBuilder::new()
    }

    /// How many rows there are.
    pub fn len(&self) -> (r: usize)
        ensures
            r == self.state.keys.count(),
    {
        self.state.len()
    }

    /// Whether there is no row.
    pub fn is_empty(&self) -> (r: bool)
        ensures
            r == (self.state.keys.count() == 0),
    {
        self.state.is_empty()
    }

    /// The channels that the geom declares, by name.
    pub fn declared_channels(&self) -> (r: &Vec<ChannelDecl>)
        ensures
            *r == self.state.declared,
    {
        &self.state.declared
    }

    /// Replaces one channel. See [`GeomState::set`].
    pub fn set(&mut self, name: &str, value: Channel) -> (r: Result<(), BuildError>)
        ensures
            match r {
                Ok(_) => {
                    &&& value.column() is Some ==> value.column()->0.count()
                        == old(self).state.keys.count()
                    &&& final(self).state.channels@ == old(self).state.channels@.insert(name@, value)
                    &&& final(self).state.dirty
                    &&& final(self).state.same_but_channels(old(self).state)
                },
                Err(e) => {
                    &&& value.column() is Some
                    &&& value.column()->0.count() != old(self).state.keys.count()
                    &&& e@ == (BuildFault::SetLength {
                        name: name@,
                        len: value.column()->0.count(),
                        rows: old(self).state.keys.count(),
                    })
                    &&& final(self).state == old(self).state
                },
            },
            old(self).state.wf() ==> final(self).state.wf(),
            final(self).marks == old(self).marks,
            final(self).orientation == old(self).orientation,
    {
        self.state.set(name.to_owned(), value)
    }

    /// What the geom would be built from again: the start of an update.
    pub fn edit(&self) -> (r: GeomBuilder)
        ensures
            r.channels@ == self.state.channels@,
            match self.state.keys {
                Keys::Explicit(c) => r.keys == Some(c),
                Keys::Positional(_) => r.keys is None,
            },
    {
        GeomBuilder::from_state(&self.state)
    }

    /// Replaces the whole frame by what `builder` makes of it, and makes the
    /// current frame the one before. A frame that cannot be built changes
    /// nothing.
    pub fn update(&mut self, builder: GeomBuilder) -> (r: Result<(), BuildError>)
        ensures
            match r {
                Ok(_) => {
                    &&& can_build(builder.keys, builder.channels@, final(self).state.keys.count())
                    &&& final(self).state.prev_keys == old(self).state.keys
                    &&& final(self).state.prev_channels == old(self).state.channels
                    &&& final(self).state.channels@ == builder.channels@
                    &&& keys_built(
                        final(self).state.keys,
                        builder.keys,
                        final(self).state.keys.count(),
                        KeysStrategy::OneMark,
                    )
                    &&& declares(final(self).state.declared@, builder.channels@, catalog())
                    &&& final(self).state.dirty
                    &&& final(self).state.wf()
                    &&& final(self).marks@.len() == 0
                    &&& final(self).orientation == old(self).orientation
                },
                Err(e) => rejected(builder.keys, builder.channels@, e@) && *final(self) == *old(
                    self,
                ),
            },
    {
        match Self::build_from(builder) {
            Ok(new) => {
                self.state.replace_current_with(new.state);
                self.invalidate_caches();
                Ok(())
            },
            Err(e) => Err(e),
        }
    }
}

/// The space that a curve is bent in.
#[derive(Clone, Copy, Debug, PartialEq, Eq, Structural)]
pub enum InterpolationSpace {
    /// The data's: each point of the curve is projected.
    Domain,
    /// The panel's: the control points are projected, and the curve is bent
    /// between them.
    Panel,
}

/// The outline of an edge.
#[derive(Debug)]
pub struct EdgeOutline {
    /// Its colour.
    pub stroke: Paint,
    /// What it is stroked with.
    pub pen: Pen,
    /// Whether its line has any width.
    pub when: Cond,
    /// How much is trimmed off its start, in points.
    pub clip_start: Expr,
    /// How much is trimmed off its end, in points.
    pub clip_end: Expr,
    /// The marker at its start.
    pub start_marker: Option<EndMarker>,
    /// The marker at its end.
    pub end_marker: Option<EndMarker>,
}

/// A row of a band: a control point of either edge.
#[derive(Debug)]
pub struct RibbonRow {
    /// The row.
    pub row: usize,
    /// Where the first edge runs, as fractions of the panel.
    pub a: Fractions,
    /// Where the second edge runs, as fractions of the panel.
    pub b: Fractions,
    /// Whether both lie anywhere. If not, the band leaves the row out.
    pub placed: Cond,
    /// The fill of the row.
    pub fill: Option<Color>,
    /// What replaces the alpha of the fill.
    pub alpha: Option<Num>,
}

/// A band between two curves.
#[derive(Debug)]
pub struct Ribbon {
    /// When it is drawn at all.
    pub when: Cond,
    /// Its rows.
    pub rows: Vec<RibbonRow>,
    /// What it is filled with.
    pub fill: Option<Paint>,
    /// The outline of the first edge.
    pub outline_a: Option<EdgeOutline>,
    /// The outline of the second edge.
    pub outline_b: Option<EdgeOutline>,
    /// The degree of the curves that is asked for.
    pub degree: u64,
    /// The space that the curves are bent in.
    pub space: InterpolationSpace,
    /// What it hit-tests as.
    pub pick: PickId,
}

/// The names of the channels of an outline.
pub struct OutlineNames {
    /// The colour.
    pub stroke: &'static str,
    /// How wide the line is.
    pub linewidth: &'static str,
    /// The line pattern.
    pub linetype: &'static str,
    /// Where in the pattern the line starts.
    pub dash_offset: &'static str,
    /// How the line ends.
    pub cap: &'static str,
    /// How the line turns a corner.
    pub join: &'static str,
    /// How much is trimmed off its start.
    pub clip_start: &'static str,
    /// How much is trimmed off its end.
    pub clip_end: &'static str,
    /// The marker at its start.
    pub start_marker: &'static str,
    /// The marker at its end.
    pub end_marker: &'static str,
    /// The size of the marker at its start.
    pub start_size: &'static str,
    /// The size of the marker at its end.
    pub end_size: &'static str,
    /// The fill of the marker at its start.
    pub start_fill: &'static str,
    /// The fill of the marker at its end.
    pub end_fill: &'static str,
    /// Whether the marker at its start points the other way.
    pub start_invert: &'static str,
    /// Whether the marker at its end points the other way.
    pub end_invert: &'static str,
}

/// The channels of the first edge's outline.
pub open spec fn first_edge() -> OutlineNames {
    OutlineNames {
        stroke: "stroke",
        linewidth: "linewidth",
        linetype: "linetype",
        dash_offset: "dash_offset",
        cap: "cap",
        join: "join",
        clip_start: "clip_start_radius",
        clip_end: "clip_end_radius",
        start_marker: "start_marker",
        end_marker: "end_marker",
        start_size: "start_marker_size",
        end_size: "end_marker_size",
        start_fill: "start_marker_fill",
        end_fill: "end_marker_fill",
        start_invert: "start_marker_invert",
        end_invert: "end_marker_invert",
    }
}

/// The channels of the second edge's outline.
pub open spec fn second_edge() -> OutlineNames {
    OutlineNames {
        stroke: "stroke2",
        linewidth: "linewidth2",
        linetype: "linetype2",
        dash_offset: "dash_offset2",
        cap: "cap2",
        join: "join2",
        clip_start: "clip_start_radius2",
        clip_end: "clip_end_radius2",
        start_marker: "start_marker2",
        end_marker: "end_marker2",
        start_size: "start_marker_size2",
        end_size: "end_marker_size2",
        start_fill: "start_marker_fill2",
        end_fill: "end_marker_fill2",
        start_invert: "start_marker_invert2",
        end_invert: "end_marker_invert2",
    }
}

fn first_edge_names() -> (r: OutlineNames)
    ensures
        r == first_edge(),
{
    OutlineNames {
        stroke: "stroke",
        linewidth: "linewidth",
        linetype: "linetype",
        dash_offset: "dash_offset",
        cap: "cap",
        join: "join",
        clip_start: "clip_start_radius",
        clip_end: "clip_end_radius",
        start_marker: "start_marker",
        end_marker: "end_marker",
        start_size: "start_marker_size",
        end_size: "end_marker_size",
        start_fill: "start_marker_fill",
        end_fill: "end_marker_fill",
        start_invert: "start_marker_invert",
        end_invert: "end_marker_invert",
    }
}

fn second_edge_names() -> (r: OutlineNames)
    ensures
        r == second_edge(),
{
    OutlineNames {
        stroke: "stroke2",
        linewidth: "linewidth2",
        linetype: "linetype2",
        dash_offset: "dash_offset2",
        cap: "cap2",
        join: "join2",
        clip_start: "clip_start_radius2",
        clip_end: "clip_end_radius2",
        start_marker: "start_marker2",
        end_marker: "end_marker2",
        start_size: "start_marker_size2",
        end_size: "end_marker_size2",
        start_fill: "start_marker_fill2",
        end_fill: "end_marker_fill2",
        start_invert: "start_marker_invert2",
        end_invert: "end_marker_invert2",
    }
}

/// What the mark that starts at row `i` is filled with.
pub open spec fn fill_of(src: Source, theme: RibbonTheme, i: int) -> Option<Paint> {
    src.paint_of(src.color_or("fill"@, i, theme.fill), "alpha"@, i)
}

/// The outline of an edge of the mark that starts at row `i`; none without a
/// colour.
pub open spec fn outline_of(
    src: Source,
    theme: RibbonTheme,
    names: OutlineNames,
    i: int,
) -> Option<EdgeOutline> {
    let lw = src.number_or(names.linewidth@, i, theme.linewidth_pt);
    match src.paint_of(src.color_or(names.stroke@, i, theme.stroke), "alpha"@, i) {
        Some(stroke) => Some(
            EdgeOutline {
                stroke,
                pen: Pen {
                    width: e_px(Expr::Lit(lw)),
                    cap: cap_named(src.string_at(names.cap@, i), theme.cap),
                    join: join_named(src.string_at(names.join@, i), theme.join),
                    pattern: src.linetype_at(names.linetype@, i),
                    dash_offset: e_px(
                        Expr::Lit(src.number_or(names.dash_offset@, i, Num { bits: 0 })),
                    ),
                },
                when: c_finite_positive(e_px(Expr::Lit(lw))),
                clip_start: trimmed(
                    src,
                    names.clip_start@,
                    names.start_marker@,
                    names.start_size@,
                    Quantity::StartReach,
                    i,
                    lw,
                ),
                clip_end: trimmed(
                    src,
                    names.clip_end@,
                    names.end_marker@,
                    names.end_size@,
                    Quantity::EndReach,
                    i,
                    lw,
                ),
                start_marker: end_marker(
                    src,
                    names.start_marker@,
                    names.start_size@,
                    names.start_fill@,
                    names.start_invert@,
                    i,
                    lw,
                    stroke,
                ),
                end_marker: end_marker(
                    src,
                    names.end_marker@,
                    names.end_size@,
                    names.end_fill@,
                    names.end_invert@,
                    i,
                    lw,
                    stroke,
                ),
            },
        ),
        None => None,
    }
}

/// The degree that is asked for where nothing else is said.
pub const DEFAULT_DEGREE: u64 = 3;

/// The degree of the mark that starts at row `i`.
pub open spec fn degree_of(src: Source, i: int) -> u64 {
    match src.number_at("degree"@, i) {
        Some(n) => choose|d: u64| n.is_cut_to(d),
        None => DEFAULT_DEGREE,
    }
}

/// The space that the curves of the mark that starts at row `i` are bent in.
pub open spec fn space_of(src: Source, i: int) -> InterpolationSpace {
    match src.string_at("interpolation"@, i) {
        Some(s) => if s@ == "panel"@ {
            InterpolationSpace::Panel
        } else {
            InterpolationSpace::Domain
        },
        None => InterpolationSpace::Domain,
    }
}

/// Where a channel puts row `i`. One that is left out puts it nowhere.
pub open spec fn place_of(src: Source, name: Seq<char>, i: int) -> Expr {
    if src.channels.contains_key(name) {
        src.position(name, i, Num { bits: 0 })
    } else {
        Expr::Lit(Num { bits: UNDEFINED_BITS })
    }
}

/// The control point of the first edge in row `i`.
pub open spec fn first_point(src: Source, i: int) -> Fractions {
    Fractions { a: place_of(src, "x"@, i), b: place_of(src, "y"@, i) }
}

/// The control point of the second edge in row `i`.
pub open spec fn second_point(src: Source, orientation: Orientation, i: int) -> Fractions {
    match orientation {
        Orientation::Horizontal => Fractions {
            a: place_of(src, "x"@, i),
            b: place_of(src, "y2"@, i),
        },
        Orientation::Vertical => Fractions {
            a: place_of(src, "x2"@, i),
            b: place_of(src, "y"@, i),
        },
        Orientation::Free => Fractions {
            a: place_of(src, "x2"@, i),
            b: place_of(src, "y2"@, i),
        },
    }
}

/// What a band is made of in row `i`.
pub open spec fn row_of(src: Source, orientation: Orientation, i: int) -> RibbonRow {
    let a = first_point(src, i);
    let b = second_point(src, orientation, i);
    RibbonRow {
        row: i as usize,
        a,
        b,
        placed: c_and(c_and(c_finite(a.a), c_finite(a.b)), c_and(c_finite(b.a), c_finite(b.b))),
        fill: src.color_at("fill"@, i),
        alpha: src.number_at("alpha"@, i),
    }
}

/// Whether there is anything to draw for the mark that starts at row `i`.
pub open spec fn is_shown(src: Source, theme: RibbonTheme, i: int) -> bool {
    ||| fill_of(src, theme, i) is Some
    ||| outline_of(src, theme, first_edge(), i) is Some
    ||| outline_of(src, theme, second_edge(), i) is Some
}

/// Whether `p` is the band of a mark: everything but its rows comes from its
/// first row.
pub open spec fn is_plan(
    p: Ribbon,
    src: Source,
    theme: RibbonTheme,
    orientation: Orientation,
    mark: MarkSlot,
) -> bool {
    let i = mark.first_row as int;
    &&& p.when == c_panel_open()
    &&& p.rows@ == Seq::new(
        mark.rows@.len(),
        |k: int| row_of(src, orientation, mark.rows@[k] as int),
    )
    &&& p.fill == fill_of(src, theme, i)
    &&& p.outline_a == outline_of(src, theme, first_edge(), i)
    &&& p.outline_b == outline_of(src, theme, second_edge(), i)
    &&& p.degree == degree_of(src, i)
    &&& p.space == space_of(src, i)
    &&& p.pick == pick_for(src.number_at("pick_id"@, i))
}

/// Those of the first `n` marks that have something to draw, in order.
pub open spec fn shown_marks(
    src: Source,
    theme: RibbonTheme,
    marks: Seq<MarkSlot>,
    n: nat,
) -> Seq<MarkSlot>
    decreases n,
{
    if n == 0 {
        Seq::empty()
    } else {
        let before = shown_marks(src, theme, marks, (n - 1) as nat);
        if is_shown(src, theme, marks[n - 1].first_row as int) {
            before.push(marks[n - 1])
        } else {
            before
        }
    }
}

/// Whether `plans` are those of the first `n` marks, for each mark with
/// something to draw one.
pub open spec fn are_plans(
    plans: Seq<Ribbon>,
    src: Source,
    theme: RibbonTheme,
    orientation: Orientation,
    marks: Seq<MarkSlot>,
    n: nat,
) -> bool {
    let shown = shown_marks(src, theme, marks, n);
    &&& plans.len() == shown.len()
    &&& forall|k: int|
        0 <= k < plans.len() ==> is_plan(#[trigger] plans[k], src, theme, orientation, shown[k])
}

fn outline_for(src: &Bound, theme: &RibbonTheme, names: &OutlineNames, i: usize) -> (r: Option<
    EdgeOutline,
>)
    ensures
        r == outline_of(src@, *theme, *names, i as int),
{
    let zero = Num { bits: 0 };
    let lw: Num = src.number_or(names.linewidth, i, theme.linewidth_pt);
    let stroke = match src.paint_of(src.color_or(names.stroke, i, theme.stroke), "alpha", i) {
        Some(p) => p,
        None => return None,
    };
    let width = Expr::Lit(lw).in_px();
    let when = width.is_finite_positive();
    let pen = Pen {
        width,
        cap: src.cap_or(names.cap, i, theme.cap),
        join: src.join_or(names.join, i, theme.join),
        pattern: src.linetype_at(names.linetype, i),
        dash_offset: Expr::Lit(src.number_or(names.dash_offset, i, zero)).in_px(),
    };
    Some(
        EdgeOutline {
            stroke,
            pen,
            when,
            clip_start: trimmed_off(
                src,
                names.clip_start,
                names.start_marker,
                names.start_size,
                Quantity::StartReach,
                i,
                lw,
            ),
            clip_end: trimmed_off(
                src,
                names.clip_end,
                names.end_marker,
                names.end_size,
                Quantity::EndReach,
                i,
                lw,
            ),
            start_marker: marker_at_end(
                src,
                names.start_marker,
                names.start_size,
                names.start_fill,
                names.start_invert,
                i,
                lw,
                stroke,
            ),
            end_marker: marker_at_end(
                src,
                names.end_marker,
                names.end_size,
                names.end_fill,
                names.end_invert,
                i,
                lw,
                stroke,
            ),
        },
    )
}

fn place_for(src: &Bound, name: &str, i: usize) -> (r: Expr)
    ensures
        r == place_of(src@, name@, i as int),
{
    if src.channels.contains(name) {
        src.position(name, i, Num { bits: 0 })
    } else {
        Expr::Lit(Num { bits: UNDEFINED_BITS })
    }
}

fn row_for(src: &Bound, orientation: Orientation, i: usize) -> (r: RibbonRow)
    ensures
        r == row_of(src@, orientation, i as int),
{
    let a = Fractions { a: place_for(src, "x", i), b: place_for(src, "y", i) };
    let b = match orientation {
        Orientation::Horizontal => Fractions {
            a: place_for(src, "x", i),
            b: place_for(src, "y2", i),
        },
        Orientation::Vertical => Fractions {
            a: place_for(src, "x2", i),
            b: place_for(src, "y", i),
        },
        Orientation::Free => Fractions { a: place_for(src, "x2", i), b: place_for(src, "y2", i) },
    };
    let placed = a.a.is_finite().and(a.b.is_finite()).and(b.a.is_finite().and(b.b.is_finite()));
    RibbonRow {
        row: i,
        a,
        b,
        placed,
        fill: src.color_at("fill", i),
        alpha: src.number_at("alpha", i),
    }
}

fn rows_for(src: &Bound, orientation: Orientation, rows: &Vec<usize>) -> (r: Vec<RibbonRow>)
    ensures
        r@ == Seq::new(rows@.len(), |k: int| row_of(src@, orientation, rows@[k] as int)),
{
    let mut r: Vec<RibbonRow> = Vec::new();
    let mut j: usize = 0;
    while j < rows.len()
        invariant
            j <= rows@.len(),
            r@ == Seq::new(j as nat, |k: int| row_of(src@, orientation, rows@[k] as int)),
        decreases rows@.len() - j,
    {
        r.push(row_for(src, orientation, rows[j]));
        j = j + 1;
        assert(r@ =~= Seq::new(j as nat, |k: int| row_of(src@, orientation, rows@[k] as int)));
    }
    r
}

/// The band of one mark; none where there is nothing to draw for it.
pub fn draw_one_ribbon_bspline_mark(
    src: &Bound,
    theme: &RibbonTheme,
    orientation: Orientation,
    mark: &MarkSlot,
) -> (r: Option<Ribbon>)
    ensures
        match r {
            Some(p) => is_shown(src@, *theme, mark.first_row as int) && is_plan(
                p,
                src@,
                *theme,
                orientation,
                *mark,
            ),
            None => !is_shown(src@, *theme, mark.first_row as int),
        },
{
    let i: usize = mark.first_row;
    let fill = src.paint_of(src.color_or("fill", i, theme.fill), "alpha", i);
    let outline_a = outline_for(src, theme, &first_edge_names(), i);
    let outline_b = outline_for(src, theme, &second_edge_names(), i);
    if fill.is_none() && outline_a.is_none() && outline_b.is_none() {
        return None;
    }
    let degree: u64 = match src.number_at("degree", i) {
        Some(n) => n.whole_part(),
        None => DEFAULT_DEGREE,
    };
    let space = match src.string_at("interpolation", i) {
        Some(s) => if same_name(s.as_str(), "panel") {
            InterpolationSpace::Panel
        } else {
            InterpolationSpace::Domain
        },
        None => InterpolationSpace::Domain,
    };
    Some(
        Ribbon {
            when: Cond::panel_open(),
            rows: rows_for(src, orientation, &mark.rows),
            fill,
            outline_a,
            outline_b,
            degree,
            space,
            pick: src.pick_at("pick_id", i),
        },
    )
}

fn plan_marks(
    src: &Bound,
    theme: &RibbonTheme,
    orientation: Orientation,
    marks: &Vec<MarkSlot>,
) -> (r: Vec<Ribbon>)
    ensures
        are_plans(r@, src@, *theme, orientation, marks@, marks@.len()),
{
    let mut out: Vec<Ribbon> = Vec::new();
    let mut m: usize = 0;
    while m < marks.len()
        invariant
            m <= marks@.len(),
            are_plans(out@, src@, *theme, orientation, marks@, m as nat),
        decreases marks@.len() - m,
    {
        let ghost before = out@;
        let ghost shown = shown_marks(src@, *theme, marks@, m as nat);
        if let Some(p) = draw_one_ribbon_bspline_mark(src, theme, orientation, &marks[m]) {
            out.push(p);
            let ghost after = shown_marks(src@, *theme, marks@, (m + 1) as nat);
            assert(after == shown.push(marks@[m as int]));
            assert forall|k: int| 0 <= k < out@.len() implies is_plan(
                #[trigger] out@[k],
                src@,
                *theme,
                orientation,
                after[k],
            ) by {
                if k < before.len() {
                    assert(out@[k] == before[k]);
                    assert(after[k] == shown[k]);
                }
            }
        }
        assert(are_plans(out@, src@, *theme, orientation, marks@, (m + 1) as nat));
        m = m + 1;
    }
    out
}

impl RibbonBSplineGeom {
    /// The bands, one for each mark that has something to draw. Everything but
    /// the rows of a band comes from the first row of its mark.
    pub fn draw(&self, scales: &ScaleOutputs, theme: &RibbonTheme) -> (r: Vec<Ribbon>)
        ensures
            ({
                let src = Source {
                    channels: self.state.channels@,
                    values: scales.values@,
                    positions: scales.positions@,
                };
                let placed = src.places_rows("x"@) && src.places_rows("y"@);
                &&& placed ==> exists|marks: Seq<MarkSlot>| #[trigger]
                    are_drawn_marks(marks, self.marks@, self.state.keys) && are_plans(
                        r@,
                        src,
                        *theme,
                        self.orientation,
                        marks,
                        marks.len(),
                    )
                &&& !placed ==> r@.len() == 0
            }),
    {
        let src = Bound { channels: &self.state.channels, scales };
        if !src.places_rows("x") || !src.places_rows("y") {
            return Vec::new();
        }
        if self.marks.len() == 0 && self.state.len() > 0 {
            let marks = self.build_marks();
            assert(are_drawn_marks(marks@, self.marks@, self.state.keys));
            plan_marks(&src, theme, self.orientation, &marks)
        } else {
            assert(are_drawn_marks(self.marks@, self.marks@, self.state.keys));
            plan_marks(&src, theme, self.orientation, &self.marks)
        }
    }
}

/// Those of the first `n` rows that lie somewhere, in order.
pub open spec fn kept_rows(placed: Seq<bool>, n: nat) -> Seq<usize>
    decreases n,
{
    if n == 0 {
        Seq::empty()
    } else if placed[n - 1] {
        kept_rows(placed, (n - 1) as nat).push((n - 1) as usize)
    } else {
        kept_rows(placed, (n - 1) as nat)
    }
}

/// The rows that lie somewhere, in order: the control points of both edges.
pub fn control_rows(placed: &[bool]) -> (r: Vec<usize>)
    ensures
        r@ == kept_rows(placed@, placed@.len()),
{
    let mut r: Vec<usize> = Vec::new();
    let mut i: usize = 0;
    while i < placed.len()
        invariant
            i <= placed@.len(),
            r@ == kept_rows(placed@, i as nat),
        decreases placed@.len() - i,
    {
        if placed[i] {
            r.push(i);
        }
        i = i + 1;
    }
    r
}

/// Whether so few control points are too few for a curve of a degree, so that
/// the edges are straight from point to point.
pub open spec fn is_degenerate(degree: u64, controls: nat) -> bool {
    controls < (if degree < 1 {
        1
    } else {
        degree as int
    }) + 1
}

/// Where along the curve a place among the control points lies: the curve of
/// `n` points starts at nought and ends at `n` less its degree.
pub open spec fn curve_parameter(u: Num, degree: u64, n: nat) -> Expr {
    e_div(
        e_mul(Expr::Lit(u), Expr::Ratio((n - degree) as i64, 1)),
        Expr::Ratio((n - 1) as i64, 1),
    )
}

/// How the fill at a place among the control points is mixed.
#[derive(Debug)]
pub struct VertexBlend {
    /// The control point at or before the place.
    pub lo: usize,
    /// The control point behind it.
    pub hi: usize,
    /// How far the place lies from the one towards the other.
    pub t: Expr,
    /// Whether it lies on the first one, whose fill it takes as it is.
    pub on_row: Cond,
}

/// How the fill at a place among `n` control points is mixed.
pub open spec fn is_blend(r: VertexBlend, u: Num, n: nat) -> bool {
    let k = choose|k: u64| u.is_cut_to(k);
    let t = e_sub(
        e_clamp(Expr::Lit(u), e_int(0), Expr::Ratio((n - 1) as i64, 1)),
        Expr::Ratio(r.lo as i64, 1),
    );
    &&& r.lo == (if k < n {
        k as int
    } else {
        n - 1
    })
    &&& r.hi == (if r.lo + 1 < n {
        r.lo + 1
    } else {
        n - 1
    })
    &&& r.t == t
    &&& r.on_row == (if r.lo == r.hi {
        Cond::Always
    } else {
        c_within(t, 1_000_000_000)
    })
}

/// How the fill at a place among `n` control points is mixed: of the points
/// before and behind it, by how far it lies between them.
pub fn blend_at(u: Num, n: usize) -> (r: VertexBlend)
    requires
        0 < n <= 0x7FFF_FFFF_FFFF_FFFF,
    ensures
        is_blend(r, u, n as nat),
{
    let k: u64 = u.whole_part();
    let lo: usize = if k < n as u64 {
        k as usize
    } else {
        n - 1
    };
    let hi: usize = if lo + 1 < n {
        lo + 1
    } else {
        n - 1
    };
    let last: i64 = (n - 1) as i64;
    let t = Expr::Lit(u).kept_between(Expr::Ratio(0, 1), Expr::Ratio(last, 1)).minus(
        Expr::Ratio(lo as i64, 1),
    );
    let on_row = if lo == hi {
        Cond::Always
    } else {
        within(t.again(), 1_000_000_000)
    };
    VertexBlend { lo, hi, t, on_row }
}

/// What the edges of a band share: places among its control points, in order,
/// no two of them closer than a billionth. Whether two are that close the
/// painter says.
pub struct GridMerge {
    /// The places that are kept.
    pub kept: Vec<Num>,
    /// All places in ascending order.
    pub places: Vec<Num>,
    /// How many of them were looked at.
    pub seen: usize,
}

impl GridMerge {
    /// Whether the places that were looked at are kept or close to one that is.
    pub open spec fn wf(self) -> bool {
        &&& self.seen <= self.places@.len()
        &&& self.kept@.len() <= self.seen
        &&& self.places@.len() > 0 ==> self.seen > 0 && self.kept@.len() > 0
        &&& is_ascending(self.places@)
        &&& is_ascending(self.kept@)
        &&& forall|k: int|
            0 <= k < self.kept@.len() ==> self.places@.take(self.seen as int).contains(
                #[trigger] self.kept@[k],
            )
    }

    /// Whether the next place is too close to the last that is kept.
    pub open spec fn c_close(self) -> Cond {
        c_within(
            e_sub(
                Expr::Lit(self.places@[self.seen as int]),
                Expr::Lit(self.kept@[self.kept@.len() - 1]),
            ),
            1_000_000_000,
        )
    }

    /// Starts with the places of both edges. The first of all is kept.
    pub fn new(a: &Vec<Num>, b: &Vec<Num>) -> (r: GridMerge)
        ensures
            r.wf(),
            r.places@ == ascending(a@ + b@),
            a@.len() + b@.len() > 0 ==> r.seen == 1 && r.kept@ == seq![r.places@[0]],
    {
        let mut all: Vec<Num> = Vec::new();
        let mut i: usize = 0;
        while i < a.len()
            invariant
                i <= a@.len(),
                all@ == a@.take(i as int),
            decreases a@.len() - i,
        {
            all.push(a[i]);
            i = i + 1;
            assert(all@ =~= a@.take(i as int));
        }
        let mut j: usize = 0;
        assert(all@ =~= a@ + b@.take(0));
        while j < b.len()
            invariant
                j <= b@.len(),
                all@ == a@ + b@.take(j as int),
            decreases b@.len() - j,
        {
            all.push(b[j]);
            j = j + 1;
            assert(all@ =~= a@ + b@.take(j as int));
        }
        assert(all@ =~= a@ + b@);
        let places = sorted(&all);
        proof {
            sorting_keeps_numbers(all@);
        }
        let mut kept: Vec<Num> = Vec::new();
        let mut seen: usize = 0;
        if places.len() > 0 {
            kept.push(places[0]);
            seen = 1;
            assert(places@.take(1)[0] == kept@[0]);
            assert(kept@ =~= seq![places@[0]]);
        }
        GridMerge { kept, places, seen }
    }

    /// The next question: whether a place is too close to the last that is
    /// kept. None where all places were looked at.
    pub fn question(&self) -> (r: Option<Cond>)
        requires
            self.wf(),
        ensures
            match r {
                Some(c) => self.seen < self.places@.len() && c == self.c_close(),
                None => self.seen == self.places@.len(),
            },
    {
        if self.seen < self.places.len() {
            let next: Num = self.places[self.seen];
            let last: Num = self.kept[self.kept.len() - 1];
            Some(within(Expr::Lit(next).minus(Expr::Lit(last)), 1_000_000_000))
        } else {
            None
        }
    }

    /// Goes on with the answer: a place that is too close is left out.
    pub fn answer(&mut self, close: bool)
        requires
            old(self).wf(),
            old(self).seen < old(self).places@.len(),
        ensures
            final(self).wf(),
            final(self).places == old(self).places,
            final(self).seen == old(self).seen + 1,
            final(self).kept@ == (if close {
                old(self).kept@
            } else {
                old(self).kept@.push(old(self).places@[old(self).seen as int])
            }),
    {
        let ghost before = self.kept@;
        let ghost s = self.seen as int;
        let n: usize = self.places.len();
        assert(self.seen < n);
        if !close {
            self.kept.push(self.places[self.seen]);
        }
        self.seen = self.seen + 1;
        proof {
            let head = self.places@.take(s);
            let longer = self.places@.take(s + 1);
            assert(longer[s] == self.places@[s]);
            assert forall|k: int| 0 <= k < self.kept@.len() implies longer.contains(
                #[trigger] self.kept@[k],
            ) by {
                if k < before.len() {
                    assert(head.contains(before[k]));
                    let m = choose|m: int| 0 <= m < head.len() && head[m] == before[k];
                    assert(longer[m] == before[k]);
                }
            }
            assert forall|i: int, j: int| 0 <= i <= j < self.kept@.len() implies (
            #[trigger] self.kept@[i]).rank() <= (#[trigger] self.kept@[j]).rank() by {
                if j == before.len() && i < j {
                    assert(head.contains(before[i]));
                    let m = choose|m: int| 0 <= m < head.len() && head[m] == before[i];
                    assert(self.places@[m].rank() <= self.places@[s].rank());
                }
            }
        }
    }
}

/// A corner of the band's contour.
#[derive(Clone, Copy, Debug, PartialEq, Eq, Structural)]
pub enum ContourPoint {
    /// A point of the first edge.
    A(usize),
    /// A point of the line that joins the ends of the edges.
    EndCap(usize),
    /// A point of the second edge.
    B(usize),
    /// A point of the line that joins the starts of the edges.
    StartCap(usize),
}

/// The contour of a band: along the first edge, over to the end of the second,
/// back along it, and over to the start of the first. It is closed.
pub open spec fn contour_of(a: nat, end: nat, b: nat, start: nat) -> Seq<ContourPoint> {
    Seq::new(a, |k: int| ContourPoint::A(k as usize)) + Seq::new(
        end,
        |k: int| ContourPoint::EndCap(k as usize),
    ) + Seq::new(b, |k: int| ContourPoint::B((b - 1 - k) as usize)) + Seq::new(
        start,
        |k: int| ContourPoint::StartCap(k as usize),
    )
}

/// The contour of a band whose edges and caps have so many points.
pub fn contour(a: usize, end: usize, b: usize, start: usize) -> (r: Vec<ContourPoint>)
    ensures
        r@ == contour_of(a as nat, end as nat, b as nat, start as nat),
{
    let mut r: Vec<ContourPoint> = Vec::new();
    let mut i: usize = 0;
    while i < a
        invariant
            i <= a,
            r@ == Seq::new(i as nat, |k: int| ContourPoint::A(k as usize)),
        decreases a - i,
    {
        r.push(ContourPoint::A(i));
        i = i + 1;
        assert(r@ =~= Seq::new(i as nat, |k: int| ContourPoint::A(k as usize)));
    }
    let ghost p = r@;
    let mut i: usize = 0;
    assert(r@ =~= p + Seq::new(0, |k: int| ContourPoint::EndCap(k as usize)));
    while i < end
        invariant
            i <= end,
            r@ == p + Seq::new(i as nat, |k: int| ContourPoint::EndCap(k as usize)),
        decreases end - i,
    {
        r.push(ContourPoint::EndCap(i));
        i = i + 1;
        assert(r@ =~= p + Seq::new(i as nat, |k: int| ContourPoint::EndCap(k as usize)));
    }
    let ghost p = r@;
    let mut i: usize = 0;
    assert(r@ =~= p + Seq::new(0, |k: int| ContourPoint::B((b - 1 - k) as usize)));
    while i < b
        invariant
            i <= b,
            r@ == p + Seq::new(i as nat, |k: int| ContourPoint::B((b - 1 - k) as usize)),
        decreases b - i,
    {
        r.push(ContourPoint::B(b - 1 - i));
        i = i + 1;
        assert(r@ =~= p + Seq::new(i as nat, |k: int| ContourPoint::B((b - 1 - k) as usize)));
    }
    let ghost p = r@;
    let mut i: usize = 0;
    assert(r@ =~= p + Seq::new(0, |k: int| ContourPoint::StartCap(k as usize)));
    while i < start
        invariant
            i <= start,
            r@ == p + Seq::new(i as nat, |k: int| ContourPoint::StartCap(k as usize)),
        decreases start - i,
    {
        r.push(ContourPoint::StartCap(i));
        i = i + 1;
        assert(r@ =~= p + Seq::new(i as nat, |k: int| ContourPoint::StartCap(k as usize)));
    }
    r
}

/// What came out of a band's curves.
#[derive(Clone, Copy, Debug)]
pub struct CurveFacts {
    /// How many control points there are.
    pub controls: usize,
    /// How many points the first edge has.
    pub a: usize,
    /// How many points the second edge has.
    pub b: usize,
    /// How many places both edges share.
    pub shared: usize,
    /// Whether the mesh between the edges has any corner.
    pub meshed: bool,
}

/// A fan of triangles that rounds the mesh off at a cap: from the straight line
/// between the ends of the edges out to the cap's own points.
#[derive(Clone, Copy, Debug, PartialEq, Eq, Structural)]
pub struct CapFan {
    /// The shared place where the mesh ends.
    pub corner: usize,
    /// The shared place next to it, on the side of the mesh.
    pub neighbor: usize,
    /// Whether the cap joins the starts of the edges, and not their ends.
    pub at_start: bool,
}

/// The fans of a mesh over so many shared places.
pub open spec fn fans_of(shared: usize) -> Seq<CapFan> {
    seq![
        (CapFan { corner: 0, neighbor: 1, at_start: true }),
        (CapFan {
            corner: (shared - 1) as usize,
            neighbor: (shared - 2) as usize,
            at_start: false,
        }),
    ]
}

/// The fans of a mesh over so many shared places: one at its start, then one at
/// its end.
pub fn cap_fans(shared: usize) -> (r: Vec<CapFan>)
    requires
        shared >= 2,
    ensures
        r@ == seq![
            (CapFan { corner: 0, neighbor: 1, at_start: true }),
            (CapFan {
                corner: (shared - 1) as usize,
                neighbor: (shared - 2) as usize,
                at_start: false,
            }),
        ],
{
    let mut r: Vec<CapFan> = Vec::new();
    r.push(CapFan { corner: 0, neighbor: 1, at_start: true });
    r.push(CapFan { corner: shared - 1, neighbor: shared - 2, at_start: false });
    r
}

/// What a fan is made of. Its triangles lie beyond the line from `a` to `b`, all
/// in one colour, and only where the cap bulges away from `neighbor`.
#[derive(Debug)]
pub struct FanPlan {
    /// Where the first edge ends.
    pub a: Point,
    /// Where the second edge ends.
    pub b: Point,
    /// The middle between the edges at the place next to the cap.
    pub neighbor: Point,
    /// How the colour is mixed.
    pub color: VertexBlend,
    /// The cap's own points, in the order of the contour.
    pub samples: Vec<Point>,
    /// Whether the cap joins the starts of the edges, and not their ends.
    pub at_start: bool,
}

/// The middle between two points.
pub open spec fn middle_of(a: Point, b: Point) -> Point {
    Point { x: e_mul(e_add(a.x, b.x), e_half()), y: e_mul(e_add(a.y, b.y), e_half()) }
}

/// The middle between two points.
pub fn middle(a: &Point, b: &Point) -> (r: Point)
    ensures
        r == middle_of(*a, *b),
{
    Point {
        x: a.x.again().plus(b.x.again()).times(Expr::Ratio(1, 2)),
        y: a.y.again().plus(b.y.again()).times(Expr::Ratio(1, 2)),
    }
}

/// What a fan is made of: the edges `a` and `b` at the shared places `places`
/// among `controls` control points, and the caps.
pub open spec fn is_fan_plan(
    r: FanPlan,
    fan: CapFan,
    a: Seq<Point>,
    b: Seq<Point>,
    places: Seq<Num>,
    controls: nat,
    start_cap: Seq<Point>,
    end_cap: Seq<Point>,
) -> bool {
    &&& r.a == a[fan.corner as int]
    &&& r.b == b[fan.corner as int]
    &&& r.neighbor == middle_of(a[fan.neighbor as int], b[fan.neighbor as int])
    &&& is_blend(r.color, places[fan.corner as int], controls)
    &&& r.samples@ == (if fan.at_start {
        start_cap
    } else {
        end_cap
    })
    &&& r.at_start == fan.at_start
}

fn points_again(points: &[Point]) -> (r: Vec<Point>)
    ensures
        r@ == points@,
{
    let mut r: Vec<Point> = Vec::new();
    let mut k: usize = 0;
    while k < points.len()
        invariant
            k <= points@.len(),
            r@ == points@.take(k as int),
        decreases points@.len() - k,
    {
        r.push(points[k].again());
        k = k + 1;
        assert(r@ =~= points@.take(k as int));
    }
    assert(r@ =~= points@);
    r
}

impl CapFan {
    /// What the fan is made of: the edges `a` and `b` at the shared places
    /// `places` among `controls` control points, and the caps.
    pub fn plan(
        &self,
        a: &[Point],
        b: &[Point],
        places: &[Num],
        controls: usize,
        start_cap: &[Point],
        end_cap: &[Point],
    ) -> (r: FanPlan)
        requires
            0 < controls <= 0x7FFF_FFFF_FFFF_FFFF,
            a@.len() == places@.len(),
            b@.len() == places@.len(),
            self.corner < places@.len(),
            self.neighbor < places@.len(),
        ensures
            is_fan_plan(
                r,
                *self,
                a@,
                b@,
                places@,
                controls as nat,
                start_cap@,
                end_cap@,
            ),
    {
        let samples = if self.at_start {
            points_again(start_cap)
        } else {
            points_again(end_cap)
        };
        FanPlan {
            a: a[self.corner].again(),
            b: b[self.corner].again(),
            neighbor: middle(&a[self.neighbor], &b[self.neighbor]),
            color: blend_at(places[self.corner], controls),
            samples,
            at_start: self.at_start,
        }
    }
}

/// One thing to draw for a band.
#[derive(Clone, Copy, Debug, PartialEq, Eq, Structural)]
pub enum RibbonOp {
    /// The contour, filled in one colour.
    Fill,
    /// From here on, nothing shows outside the contour.
    PushContour,
    /// The mesh between the edges, its corners each in its colour.
    Mesh,
    /// A fan that rounds the mesh off at a cap, part of the same mesh.
    Fan(CapFan),
    /// Undoes the clip.
    PopLayer,
    /// The outline of the first edge.
    OutlineA,
    /// The outline of the second edge.
    OutlineB,
}

/// What fills a band: one colour, or a mesh with its fans, clipped to the
/// contour, where the colour varies.
pub open spec fn fill_ops(filled: bool, varies: bool, facts: CurveFacts) -> Seq<RibbonOp> {
    if !filled {
        Seq::empty()
    } else if !varies {
        seq![RibbonOp::Fill]
    } else if facts.shared >= 2 && facts.meshed {
        seq![
            RibbonOp::PushContour,
            RibbonOp::Mesh,
            RibbonOp::Fan(fans_of(facts.shared)[0]),
            RibbonOp::Fan(fans_of(facts.shared)[1]),
            RibbonOp::PopLayer,
        ]
    } else {
        Seq::empty()
    }
}

/// Whether a band is drawn: it has two control points, and either edge two
/// points.
pub open spec fn spans(facts: CurveFacts) -> bool {
    facts.controls >= 2 && facts.a >= 2 && facts.b >= 2
}

/// What is drawn for a band, in order: its fill, then its outlines.
pub open spec fn ops_of(
    filled: bool,
    outline_a: bool,
    outline_b: bool,
    varies: bool,
    facts: CurveFacts,
) -> Seq<RibbonOp> {
    if !spans(facts) {
        Seq::empty()
    } else {
        fill_ops(filled, varies, facts) + (if outline_a {
            seq![RibbonOp::OutlineA]
        } else {
            Seq::empty()
        }) + (if outline_b {
            seq![RibbonOp::OutlineB]
        } else {
            Seq::empty()
        })
    }
}

/// Whether the fill or its alpha differs between two of the rows.
pub open spec fn fill_varies(rows: Seq<RibbonRow>, kept: Seq<usize>) -> bool {
    exists|k: int|
        0 < k < kept.len() && differs(rows[kept[0] as int], rows[#[trigger] kept[k] as int])
}

/// Whether two rows differ in their fill or its alpha.
pub open spec fn differs(a: RibbonRow, b: RibbonRow) -> bool {
    a.fill != b.fill || a.alpha != b.alpha
}

fn is_different(a: &RibbonRow, b: &RibbonRow) -> (r: bool)
    ensures
        r == differs(*a, *b),
{
    let fill = match (a.fill, b.fill) {
        (Some(c), Some(d)) => c == d,
        (None, None) => true,
        _ => false,
    };
    let alpha = match (a.alpha, b.alpha) {
        (Some(c), Some(d)) => c == d,
        (None, None) => true,
        _ => false,
    };
    !fill || !alpha
}

impl Ribbon {
    /// Whether so few control points are too few for a curve.
    pub fn is_degenerate(&self, controls: usize) -> (r: bool)
        ensures
            r == is_degenerate(self.degree, controls as nat),
    {
        let d: u64 = if self.degree < 1 {
            1
        } else {
            self.degree
        };
        (controls as u64) <= d
    }

    /// Where along the curve a place among its control points lies. Only a
    /// curve has such a place, and straight lines have none.
    pub fn parameter(&self, u: Num, controls: usize) -> (r: Expr)
        requires
            2 <= controls <= 0x7FFF_FFFF_FFFF_FFFF,
            !is_degenerate(self.degree, controls as nat),
        ensures
            r == curve_parameter(u, self.degree, controls as nat),
    {
        let n: i64 = controls as i64;
        let d: i64 = self.degree as i64;
        Expr::Lit(u).times(Expr::Ratio(n - d, 1)).over(Expr::Ratio(n - 1, 1))
    }

    /// Whether the fill varies between the rows that lie somewhere.
    pub fn varies(&self, kept: &[usize]) -> (r: bool)
        requires
            forall|k: int| 0 <= k < kept@.len() ==> (#[trigger] kept@[k]) < self.rows@.len(),
        ensures
            r == fill_varies(self.rows@, kept@),
    {
        let mut k: usize = 1;
        while k < kept.len()
            invariant
                1 <= k,
                kept@.len() > 0 ==> k <= kept@.len(),
                forall|j: int| 0 <= j < kept@.len() ==> (#[trigger] kept@[j]) < self.rows@.len(),
                forall|j: int|
                    0 < j < k && j < kept@.len() ==> !differs(
                        self.rows@[kept@[0] as int],
                        self.rows@[#[trigger] kept@[j] as int],
                    ),
            decreases kept@.len() - k,
        {
            assert(kept@[0] < self.rows@.len() && kept@[k as int] < self.rows@.len());
            if is_different(&self.rows[kept[0]], &self.rows[kept[k]]) {
                return true;
            }
            k = k + 1;
        }
        false
    }

    /// The fill of a row, as the corners of a mesh take it: the row's own, else
    /// the band's.
    pub fn row_paint(&self, k: usize) -> (r: Option<Paint>)
        requires
            k < self.rows@.len(),
        ensures
            r == match self.rows@[k as int].fill {
                Some(color) => Some(Paint { color, opacity: self.rows@[k as int].alpha }),
                None => self.fill,
            },
    {
        match self.rows[k].fill {
            Some(color) => Some(Paint { color, opacity: self.rows[k].alpha }),
            None => self.fill,
        }
    }

    /// What is drawn, in order.
    pub fn ops(&self, varies: bool, facts: CurveFacts) -> (r: Vec<RibbonOp>)
        ensures
            r@ == ops_of(
                self.fill is Some,
                self.outline_a is Some,
                self.outline_b is Some,
                varies,
                facts,
            ),
    {
        let mut r: Vec<RibbonOp> = Vec::new();
        if facts.controls < 2 || facts.a < 2 || facts.b < 2 {
            return r;
        }
        if self.fill.is_some() {
            if !varies {
                r.push(RibbonOp::Fill);
            } else if facts.shared >= 2 && facts.meshed {
                r.push(RibbonOp::PushContour);
                r.push(RibbonOp::Mesh);
                let fans = cap_fans(facts.shared);
                r.push(RibbonOp::Fan(fans[0]));
                r.push(RibbonOp::Fan(fans[1]));
                r.push(RibbonOp::PopLayer);
            }
        }
        assert(r@ =~= fill_ops(self.fill is Some, varies, facts));
        if self.outline_a.is_some() {
            r.push(RibbonOp::OutlineA);
        }
        if self.outline_b.is_some() {
            r.push(RibbonOp::OutlineB);
        }
        assert(r@ =~= ops_of(
            self.fill is Some,
            self.outline_a is Some,
            self.outline_b is Some,
            varies,
            facts,
        ));
        r
    }
}

/// The ends that the caps of a band join, as fractions of the panel: the end of
/// the first edge to that of the second, and the start of the second to that of
/// the first. They run between the control points, whatever space the curves are
/// bent in.
pub fn cap_ends(first: &RibbonRow, last: &RibbonRow) -> (r: ((Fractions, Fractions), (
    Fractions,
    Fractions,
)))
    ensures
        r.0 == (last.a, last.b),
        r.1 == (first.b, first.a),
{
    let end = (last.a.again(), last.b.again());
    let start = (first.b.again(), first.a.again());
    (end, start)
}

/// A row that is kept lies somewhere, and every row that lies somewhere is kept,
/// once and in order.
pub proof fn control_rows_are_those_placed(placed: Seq<bool>, n: nat)
    requires
        n <= placed.len() <= usize::MAX,
    ensures
        kept_rows(placed, n).len() <= n,
        forall|i: int|
            0 <= i < n ==> (kept_rows(placed, n).contains(i as usize) <==> #[trigger] placed[i]),
        forall|k: int|
            0 <= k < kept_rows(placed, n).len() ==> (#[trigger] kept_rows(placed, n)[k]) < n,
        forall|j: int, k: int|
            0 <= j < k < kept_rows(placed, n).len() ==> (#[trigger] kept_rows(placed, n)[j]) < (
            #[trigger] kept_rows(placed, n)[k]),
    decreases n,
{
    if n > 0 {
        let m = (n - 1) as nat;
        control_rows_are_those_placed(placed, m);
        let s = kept_rows(placed, n);
        let t = kept_rows(placed, m);
        assert forall|i: int| 0 <= i < n implies (s.contains(i as usize)
            <==> #[trigger] placed[i]) by {
            if placed[m as int] {
                assert(s[t.len() as int] == m as usize);
                if i < m {
                    if t.contains(i as usize) {
                        let k = choose|k: int| 0 <= k < t.len() && t[k] == i as usize;
                        assert(s[k] == i as usize);
                    }
                    if s.contains(i as usize) {
                        let k = choose|k: int| 0 <= k < s.len() && s[k] == i as usize;
                        assert(t[k] == i as usize);
                    }
                }
            } else if i == m {
                if t.contains(i as usize) {
                    let k = choose|k: int| 0 <= k < t.len() && t[k] == i as usize;
                    assert(t[k] < m);
                }
            }
        }
    }
}

/// A clip that is pushed is popped, with nothing but the mesh and its fans
/// between.
pub proof fn contours_are_popped(
    filled: bool,
    outline_a: bool,
    outline_b: bool,
    varies: bool,
    facts: CurveFacts,
    k: int,
)
    requires
        0 <= k < ops_of(filled, outline_a, outline_b, varies, facts).len(),
    ensures
        ({
            let s = ops_of(filled, outline_a, outline_b, varies, facts);
            &&& s[k] == RibbonOp::PushContour ==> k + 4 < s.len() && s[k + 1] == RibbonOp::Mesh
                && s[k + 2] is Fan && s[k + 3] is Fan && s[k + 4] == RibbonOp::PopLayer
            &&& s[k] == RibbonOp::PopLayer ==> k >= 4 && s[k - 4] == RibbonOp::PushContour
        }),
{
}

/// A mesh is rounded off at both caps, first at the start and then at the end,
/// and no fan is drawn without a mesh.
pub proof fn fans_follow_their_mesh(
    filled: bool,
    outline_a: bool,
    outline_b: bool,
    varies: bool,
    facts: CurveFacts,
    k: int,
)
    requires
        0 <= k < ops_of(filled, outline_a, outline_b, varies, facts).len(),
    ensures
        ({
            let s = ops_of(filled, outline_a, outline_b, varies, facts);
            &&& s[k] == RibbonOp::Mesh ==> {
                &&& facts.shared >= 2
                &&& k + 2 < s.len()
                &&& s[k + 1] == RibbonOp::Fan(CapFan { corner: 0, neighbor: 1, at_start: true })
                &&& s[k + 2] == RibbonOp::Fan(
                    CapFan {
                        corner: (facts.shared - 1) as usize,
                        neighbor: (facts.shared - 2) as usize,
                        at_start: false,
                    },
                )
            }
            &&& s[k] is Fan ==> k >= 1 && (s[k - 1] == RibbonOp::Mesh || k >= 2 && s[k - 2]
                == RibbonOp::Mesh)
        }),
{
}

/// The curve starts at its first control point and ends at its last.
pub proof fn parameters_meet_the_ends(u: Num, degree: u64, n: nat, env: Env)
    requires
        2 <= n <= 0x7FFF_FFFF_FFFF_FFFF,
        !is_degenerate(degree, n),
    ensures
        u.value() == 0real ==> value(curve_parameter(u, degree, n), env) == 0real,
        u.value() == (n - 1) as real ==> value(curve_parameter(u, degree, n), env) == (n
            - degree) as real,
{
    let top = Expr::Ratio((n - degree) as i64, 1);
    let bottom = Expr::Ratio((n - 1) as i64, 1);
    let p = (n - degree) as real;
    let q = (n - 1) as real;
    assert(p / 1real == p && q / 1real == q);
    assert(value(top, env) == p);
    assert(value(bottom, env) == q);
    assert(value(Expr::Lit(u), env) == u.value());
    assert(value(e_mul(Expr::Lit(u), top), env) == u.value() * p);
    let v = u.value();
    if v == 0real {
        assert(v * p / q == 0real) by (nonlinear_arith)
            requires
                v == 0real,
                q > 0real,
        ;
    }
    if v == q {
        assert(v * p / q == p) by (nonlinear_arith)
            requires
                v == q,
                q > 0real,
        ;
    }
}

/// The contour passes through every point of both edges and of both caps once.
pub proof fn contour_is_whole(a: nat, end: nat, b: nat, start: nat)
    requires
        a <= usize::MAX,
        end <= usize::MAX,
        b <= usize::MAX,
        start <= usize::MAX,
    ensures
        contour_of(a, end, b, start).len() == a + end + b + start,
        forall|i: int|
            0 <= i < a ==> #[trigger] contour_of(a, end, b, start).contains(
                ContourPoint::A(i as usize),
            ),
        forall|i: int|
            0 <= i < b ==> #[trigger] contour_of(a, end, b, start).contains(
                ContourPoint::B(i as usize),
            ),
        forall|i: int|
            0 <= i < end ==> #[trigger] contour_of(a, end, b, start).contains(
                ContourPoint::EndCap(i as usize),
            ),
        forall|i: int|
            0 <= i < start ==> #[trigger] contour_of(a, end, b, start).contains(
                ContourPoint::StartCap(i as usize),
            ),
{
    let s = contour_of(a, end, b, start);
    assert forall|i: int| 0 <= i < a implies #[trigger] s.contains(ContourPoint::A(i as usize)) by {
        assert(s[i] == ContourPoint::A(i as usize));
    }
    assert forall|i: int| 0 <= i < end implies #[trigger] s.contains(
        ContourPoint::EndCap(i as usize),
    ) by {
        assert(s[a + i] == ContourPoint::EndCap(i as usize));
    }
    assert forall|i: int| 0 <= i < b implies #[trigger] s.contains(ContourPoint::B(i as usize)) by {
        assert(s[a + end + (b - 1 - i)] == ContourPoint::B(i as usize));
    }
    assert forall|i: int| 0 <= i < start implies #[trigger] s.contains(
        ContourPoint::StartCap(i as usize),
    ) by {
        assert(s[a + end + b + i] == ContourPoint::StartCap(i as usize));
    }
}

} // verus!
