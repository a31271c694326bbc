//! Line segments between two points, one for each row.
//!
//! A row is placed by `x`, `y`, `x2` and `y2`, moved by the `_offset` channels
//! (points) and the `_band` channels (fractions of a band), turned by `angle`
//! about its middle, trimmed by the `clip_` channels, and stroked. Markers may
//! sit at its ends, and within its line pattern.

use std::sync::Arc;
use vstd::prelude::*;

use crate::channel::{CatalogEntry, Channel, ChannelDecl, ExpectedOutput, Keys};
use crate::expr::{
    c_and, c_finite, c_finite_positive, c_panel_open, c_positive, e_add, e_half, e_mul, e_px, Cond,
    Expr, Quantity,
};
use crate::geom::builder::GeomBuilder;
use crate::geom::error::{BuildError, BuildFault};
use crate::geom::marker::{
    end_marker, marker_at_end, marker_paint, paint_of_marker, trimmed, trimmed_off, EndMarker,
};
use crate::geom::place::{
    end_names, fractions_at, fractions_of, moved, offset_point, start_names,
};
use crate::geom::state::{
    build_fault, buildable, declares, finalize_state, freshly_built, has_x_and, keys_built,
    require_x_and_siblings, x_and_fault, GeomState, KeysStrategy,
};
use crate::num::Num;
use crate::pick::PickId;
use crate::projection::{Fractions, Projection};
use crate::resolve::{cap_named, join_named, pick_for, Bound, ScaleOutputs, Source};
use crate::scene::{turn, turned, Paint, Pen, Point, Xform};
use crate::theme::SegmentTheme;
use crate::value::{DataColumn, LinetypeStep};

verus! {

/// The channels that the geom reads.
pub open spec fn catalog() -> Seq<CatalogEntry> {
    seq![
        ("x", ExpectedOutput::Numbers),
        ("y", ExpectedOutput::Numbers),
        ("x2", ExpectedOutput::Numbers),
        ("y2", ExpectedOutput::Numbers),
        ("x_offset", ExpectedOutput::Numbers),
        ("y_offset", ExpectedOutput::Numbers),
        ("x2_offset", ExpectedOutput::Numbers),
        ("y2_offset", ExpectedOutput::Numbers),
        ("x_band", ExpectedOutput::Numbers),
        ("y_band", ExpectedOutput::Numbers),
        ("x2_band", ExpectedOutput::Numbers),
        ("y2_band", ExpectedOutput::Numbers),
        ("fill", ExpectedOutput::Colors),
        ("stroke", ExpectedOutput::Colors),
        ("stroke_opacity", ExpectedOutput::Numbers),
        ("linewidth", ExpectedOutput::Numbers),
        ("linetype", ExpectedOutput::Linetypes),
        ("dash_offset", ExpectedOutput::Numbers),
        ("cap", ExpectedOutput::Strings),
        ("join", ExpectedOutput::Strings),
        ("clip_start_radius", ExpectedOutput::Numbers),
        ("clip_end_radius", ExpectedOutput::Numbers),
        ("angle", ExpectedOutput::Numbers),
        ("pick_id", ExpectedOutput::Numbers),
        ("start_marker", ExpectedOutput::Strings),
        ("end_marker", ExpectedOutput::Strings),
        ("start_marker_size", ExpectedOutput::Numbers),
        ("end_marker_size", ExpectedOutput::Numbers),
        ("start_marker_fill", ExpectedOutput::Colors),
        ("end_marker_fill", ExpectedOutput::Colors),
        ("start_marker_invert", ExpectedOutput::Any),
        ("end_marker_invert", ExpectedOutput::Any),
    ]
}

fn catalog_entries() -> (r: Vec<CatalogEntry>)
    ensures
        r@ == catalog(),
{
    let r: Vec<CatalogEntry> = vec![
        ("x", ExpectedOutput::Numbers),
        ("y", ExpectedOutput::Numbers),
        ("x2", ExpectedOutput::Numbers),
        ("y2", ExpectedOutput::Numbers),
        ("x_offset", ExpectedOutput::Numbers),
        ("y_offset", ExpectedOutput::Numbers),
        ("x2_offset", ExpectedOutput::Numbers),
        ("y2_offset", ExpectedOutput::Numbers),
        ("x_band", ExpectedOutput::Numbers),
        ("y_band", ExpectedOutput::Numbers),
        ("x2_band", ExpectedOutput::Numbers),
        ("y2_band", ExpectedOutput::Numbers),
        ("fill", ExpectedOutput::Colors),
        ("stroke", ExpectedOutput::Colors),
        ("stroke_opacity", ExpectedOutput::Numbers),
        ("linewidth", ExpectedOutput::Numbers),
        ("linetype", ExpectedOutput::Linetypes),
        ("dash_offset", ExpectedOutput::Numbers),
        ("cap", ExpectedOutput::Strings),
        ("join", ExpectedOutput::Strings),
        ("clip_start_radius", ExpectedOutput::Numbers),
        ("clip_end_radius", ExpectedOutput::Numbers),
        ("angle", ExpectedOutput::Numbers),
        ("pick_id", ExpectedOutput::Numbers),
        ("start_marker", ExpectedOutput::Strings),
        ("end_marker", ExpectedOutput::Strings),
        ("start_marker_size", ExpectedOutput::Numbers),
        ("end_marker_size", ExpectedOutput::Numbers),
        ("start_marker_fill", ExpectedOutput::Colors),
        ("end_marker_fill", ExpectedOutput::Colors),
        ("start_marker_invert", ExpectedOutput::Any),
        ("end_marker_invert", ExpectedOutput::Any),
    ];
    assert(r@ =~= catalog());
    r
}

/// The columns that have to be as long as `x`.
pub open spec fn required() -> Seq<&'static str> {
    seq!["y", "x2", "y2"]
}

/// How many rows the channels have.
pub open spec fn rows_of(channels: Map<Seq<char>, Channel>) -> nat {
    channels["x"@].column()->0.count()
}

/// Whether a geom of `n` rows can be built from these channels.
pub open spec fn can_build(
    keys: Option<DataColumn>,
    channels: Map<Seq<char>, Channel>,
    n: nat,
) -> bool {
    &&& has_x_and(channels, required(), n)
    &&& buildable(keys, channels, n, catalog())
}

/// Whether no geom can be built, and `e` says why.
pub open spec fn rejected(
    keys: Option<DataColumn>,
    channels: Map<Seq<char>, Channel>,
    e: BuildFault,
) -> bool {
    &&& !can_build(keys, channels, rows_of(channels))
    &&& if !has_x_and(channels, required(), rows_of(channels)) {
        x_and_fault(channels, required(), "SegmentGeom"@, e)
    } else {
        build_fault(keys, channels, rows_of(channels), catalog(), "SegmentGeom"@, e)
    }
}

/// Line segments, one for each row.
pub struct SegmentGeom {
    /// The keys, channels and frame history.
    pub state: GeomState,
}

impl SegmentGeom {
    /// Builds the geom.
    pub fn build_from(builder: GeomBuilder) -> (r: Result<SegmentGeom, BuildError>)
        ensures
            match r {
                Ok(g) => {
                    &&& can_build(builder.keys, builder.channels@, g.state.keys.count())
                    &&& freshly_built(
                        g.state,
                        builder.keys,
                        builder.channels@,
                        g.state.keys.count(),
                        KeysStrategy::PerRow,
                        g.state.declared@,
                    )
                    &&& declares(g.state.declared@, builder.channels@, catalog())
                    &&& g.state.wf()
                },
                Err(e) => rejected(builder.keys, builder.channels@, e@),
            },
    {
        let (keys_opt, channels) = builder.into_parts();
        let siblings = ["y", "x2", "y2"];
        assert(siblings@ =~= required());
        let n: usize = match require_x_and_siblings(&channels, &siblings, "SegmentGeom") {
            Ok(n) => n,
            Err(e) => return Err(e),
        };
        let entries = catalog_entries();
        match finalize_state(
            keys_opt,
            channels,
            n,
            KeysStrategy::PerRow,
            entries.as_slice(),
            "SegmentGeom",
        ) {
            Ok(state) => Ok(SegmentGeom { state }),
            Err(e) => Err(e),
        }
    }
}

impl SegmentGeom {
    /// Nothing to build from yet.
    pub fn builder() -> (r: GeomBuilder)
        ensures
            r.keys is None,
            r.channels@ == Map::<Seq<char>, Channel>::empty(),
    {
        GeomBuilder::new()
    }

    /// How many rows there are.
    pub fn len(&self) -> (r: usize)
        ensures
            r == self.state.keys.count(),
    {
        self.state.len()
    }

    /// Whether there is no row.
    pub fn is_empty(&self) -> (r: bool)
        ensures
            r == (self.state.keys.count() == 0),
    {
        self.state.is_empty()
    }

    /// Whether a key column was supplied.
    pub fn has_explicit_keys(&self) -> (r: bool)
        ensures
            r == (self.state.keys is Explicit),
    {
        self.state.keys.is_explicit()
    }

    /// The channels that the geom declares, by name.
    pub fn declared_channels(&self) -> (r: &Vec<ChannelDecl>)
        ensures
            *r == self.state.declared,
    {
        &self.state.declared
    }

    /// Replaces one channel. See [`GeomState::set`].
    pub fn set(&mut self, name: &str, value: Channel) -> (r: Result<(), BuildError>)
        ensures
            match r {
                Ok(_) => {
                    &&& value.column() is Some ==> value.column()->0.count()
                        == old(self).state.keys.count()
                    &&& final(self).state.channels@ == old(self).state.channels@.insert(name@, value)
                    &&& final(self).state.dirty
                    &&& final(self).state.same_but_channels(old(self).state)
                },
                Err(e) => {
                    &&& value.column() is Some
                    &&& value.column()->0.count() != old(self).state.keys.count()
                    &&& e@ == (BuildFault::SetLength {
                        name: name@,
                        len: value.column()->0.count(),
                        rows: old(self).state.keys.count(),
                    })
                    &&& final(self).state == old(self).state
                },
            },
            old(self).state.wf() ==> final(self).state.wf(),
    {
        self.state.set(name.to_owned(), value)
    }

    /// What the geom would be built from again: the start of an update.
    pub fn edit(&self) -> (r: GeomBuilder)
        ensures
            r.channels@ == self.state.channels@,
            match self.state.keys {
                Keys::Explicit(c) => r.keys == Some(c),
                Keys::Positional(_) => r.keys is None,
            },
    {
        GeomBuilder::from_state(&self.state)
    }

    /// Replaces the whole frame by what `builder` makes of it, and makes the
    /// current frame the one before. A frame that cannot be built changes
    /// nothing.
    pub fn update(&mut self, builder: GeomBuilder) -> (r: Result<(), BuildError>)
        ensures
            match r {
                Ok(_) => {
                    &&& can_build(builder.keys, builder.channels@, final(self).state.keys.count())
                    &&& final(self).state.prev_keys == old(self).state.keys
                    &&& final(self).state.prev_channels == old(self).state.channels
                    &&& final(self).state.channels@ == builder.channels@
                    &&& keys_built(
                        final(self).state.keys,
                        builder.keys,
                        final(self).state.keys.count(),
                        KeysStrategy::PerRow,
                    )
                    &&& declares(final(self).state.declared@, builder.channels@, catalog())
                    &&& final(self).state.dirty
                    &&& final(self).state.wf()
                },
                Err(e) => rejected(builder.keys, builder.channels@, e@) && *final(self) == *old(
                    self,
                ),
            },
    {
        match Self::build_from(builder) {
            Ok(new) => {
                self.state.replace_current_with(new.state);
                Ok(())
            },
            Err(e) => Err(e),
        }
    }
}

/// What is drawn for one row.
#[derive(Debug)]
pub struct SegmentRow {
    /// The row.
    pub row: usize,
    /// When it is drawn at all.
    pub when: Cond,
    /// Where the segment starts, as fractions of the panel.
    pub from_frac: Fractions,
    /// Where the segment ends, as fractions of the panel.
    pub to_frac: Fractions,
    /// Where the segment starts, in pixels.
    pub from: Point,
    /// Where the segment ends, in pixels.
    pub to: Point,
    /// How much is trimmed off the start, in points.
    pub clip_start: Expr,
    /// How much is trimmed off the end, in points.
    pub clip_end: Expr,
    /// How the row is turned.
    pub xform: Xform,
    /// The stroke's colour.
    pub stroke: Paint,
    /// What the segment is stroked with.
    pub pen: Pen,
    /// What the markers of the line pattern are filled with.
    pub marker_fill: Paint,
    /// The marker at the start.
    pub start_marker: Option<EndMarker>,
    /// The marker at the end.
    pub end_marker: Option<EndMarker>,
    /// What it hit-tests as.
    pub pick: PickId,
}

/// One thing to draw for a row.
#[derive(Clone, Copy, Debug, PartialEq, Eq, Structural)]
pub enum SegmentOp {
    /// The marker at the start.
    StartMarker,
    /// The segment, stroked in one go.
    Stroke,
    /// The segment, walked step by step through a pattern with markers. A
    /// segment is open, so the pattern is not stretched to fit.
    Pattern,
    /// The marker at the end.
    EndMarker,
}

/// What is drawn for row `i`. Nothing is where it has no stroke.
pub open spec fn is_segment_row(
    src: Source,
    theme: SegmentTheme,
    projection: Projection,
    i: int,
    r: SegmentRow,
) -> bool {
    let lw = src.number_or("linewidth"@, i, theme.linewidth_pt);
    let from = fractions_at(src, "x"@, "y"@, "x_band"@, "y_band"@, i);
    let to = fractions_at(src, "x2"@, "y2"@, "x2_band"@, "y2_band"@, i);
    let p = moved(src, projection.point_at(from.a, from.b), "x_offset"@, "y_offset"@, i);
    let q = moved(src, projection.point_at(to.a, to.b), "x2_offset"@, "y2_offset"@, i);
    let middle = Point {
        x: e_mul(e_half(), e_add(p.x, q.x)),
        y: e_mul(e_half(), e_add(p.y, q.y)),
    };
    let fill = marker_paint(src, "fill"@, i, r.stroke);
    &&& r.row == i
    &&& src.paint_of(src.color_or("stroke"@, i, theme.stroke), "stroke_opacity"@, i) == Some(
        r.stroke,
    )
    &&& r.when == c_and(
        c_panel_open(),
        c_and(
            c_and(c_finite(from.a), c_finite(to.a)),
            c_and(
                c_and(c_finite(from.b), c_finite(to.b)),
                c_finite_positive(e_px(Expr::Lit(lw))),
            ),
        ),
    )
    &&& r.from_frac == from
    &&& r.to_frac == to
    &&& r.from == p
    &&& r.to == q
    &&& r.clip_start == trimmed(
        src,
        "clip_start_radius"@,
        "start_marker"@,
        "start_marker_size"@,
        Quantity::StartReach,
        i,
        lw,
    )
    &&& r.clip_end == trimmed(
        src,
        "clip_end_radius"@,
        "end_marker"@,
        "end_marker_size"@,
        Quantity::EndReach,
        i,
        lw,
    )
    &&& r.xform == turned(src.number_or("angle"@, i, Num { bits: 0 }), middle)
    &&& r.pen.width == e_px(Expr::Lit(lw))
    &&& r.pen.cap == cap_named(src.string_at("cap"@, i), theme.cap)
    &&& r.pen.join == join_named(src.string_at("join"@, i), theme.join)
    &&& r.pen.pattern == src.linetype_at("linetype"@, i)
    &&& r.pen.dash_offset == e_px(Expr::Lit(src.number_or("dash_offset"@, i, Num { bits: 0 })))
    &&& r.marker_fill == fill
    &&& r.start_marker == end_marker(
        src,
        "start_marker"@,
        "start_marker_size"@,
        "start_marker_fill"@,
        "start_marker_invert"@,
        i,
        lw,
        fill,
    )
    &&& r.end_marker == end_marker(
        src,
        "end_marker"@,
        "end_marker_size"@,
        "end_marker_fill"@,
        "end_marker_invert"@,
        i,
        lw,
        fill,
    )
    &&& r.pick == pick_for(src.number_at("pick_id"@, i))
}

/// Whether row `i` has a stroke.
pub open spec fn is_stroked(src: Source, theme: SegmentTheme, i: int) -> bool {
    src.color_or("stroke"@, i, theme.stroke) is Some
}

/// The rows among the first `n` that have a stroke.
pub open spec fn stroked_rows(src: Source, theme: SegmentTheme, n: nat) -> Seq<int>
    decreases n,
{
    if n == 0 {
        Seq::empty()
    } else if is_stroked(src, theme, n - 1) {
        stroked_rows(src, theme, (n - 1) as nat).push(n - 1)
    } else {
        stroked_rows(src, theme, (n - 1) as nat)
    }
}

/// Whether a segment can be placed at all.
pub open spec fn is_placed(src: Source) -> bool {
    src.places_rows("x"@) && src.places_rows("y"@) && src.places_rows("x2"@) && src.places_rows(
        "y2"@,
    )
}

/// Whether the pattern holds no marker. A solid line holds none.
pub open spec fn marker_free(pattern: Option<Arc<Vec<LinetypeStep>>>) -> bool {
    match pattern {
        Some(s) => forall|k: int| 0 <= k < s@.len() ==> !((#[trigger] s@[k]) is Marker),
        None => true,
    }
}

/// Whether the pattern holds no marker. A solid line holds none.
pub fn is_marker_free(line: &Option<Arc<Vec<LinetypeStep>>>) -> (r: bool)
    ensures
        r == marker_free(*line),
{
    let pattern = match line {
        Some(p) => p,
        None => return true,
    };
    let mut k: usize = 0;
    while k < pattern.len()
        invariant
            k <= pattern@.len(),
            *line == Some(*pattern),
            forall|j: int| 0 <= j < k ==> !((#[trigger] pattern@[j]) is Marker),
        decreases pattern@.len() - k,
    {
        match pattern[k] {
            LinetypeStep::Marker(_) => {
                assert(pattern@[k as int] is Marker);
                return false;
            },
            _ => {},
        }
        k = k + 1;
    }
    true
}

fn plan_row(src: &Bound, theme: &SegmentTheme, projection: &Projection, i: usize, stroke: Paint) -> (r:
    SegmentRow)
    requires
        is_placed(src@),
        src@.paint_of(
            src@.color_or("stroke"@, i as int, theme.stroke),
            "stroke_opacity"@,
            i as int,
        ) == Some(stroke),
    ensures
        is_segment_row(src@, *theme, *projection, i as int, r),
{
    let zero = Num { bits: 0 };
    let start = start_names();
    let end = end_names();
    let from_frac = fractions_of(src, &start, i);
    let to_frac = fractions_of(src, &end, i);
    let p = offset_point(src, projection.project(&from_frac.a, &from_frac.b), &start, i);
    let q = offset_point(src, projection.project(&to_frac.a, &to_frac.b), &end, i);
    let lw: Num = src.number_or("linewidth", i, theme.linewidth_pt);
    let width = Expr::Lit(lw).in_px();
    let across = from_frac.a.is_finite().and(to_frac.a.is_finite());
    let up = from_frac.b.is_finite().and(to_frac.b.is_finite());
    let when = Cond::panel_open().and(across.and(up.and(width.is_finite_positive())));
    let middle = Point {
        x: Expr::Ratio(1, 2).times(p.x.again().plus(q.x.again())),
        y: Expr::Ratio(1, 2).times(p.y.again().plus(q.y.again())),
    };
    let marker_fill = paint_of_marker(src, "fill", i, stroke);
    SegmentRow {
        row: i,
        when,
        from_frac,
        to_frac,
        from: p,
        to: q,
        clip_start: trimmed_off(
            src,
            "clip_start_radius",
            "start_marker",
            "start_marker_size",
            Quantity::StartReach,
            i,
            lw,
        ),
        clip_end: trimmed_off(
            src,
            "clip_end_radius",
            "end_marker",
            "end_marker_size",
            Quantity::EndReach,
            i,
            lw,
        ),
        xform: turn(src.number_or("angle", i, zero), middle),
        stroke,
        pen: Pen {
            width,
            cap: src.cap_or("cap", i, theme.cap),
            join: src.join_or("join", i, theme.join),
            pattern: src.linetype_at("linetype", i),
            dash_offset: Expr::Lit(src.number_or("dash_offset", i, zero)).in_px(),
        },
        marker_fill,
        start_marker: marker_at_end(
            src,
            "start_marker",
            "start_marker_size",
            "start_marker_fill",
            "start_marker_invert",
            i,
            lw,
            marker_fill,
        ),
        end_marker: marker_at_end(
            src,
            "end_marker",
            "end_marker_size",
            "end_marker_fill",
            "end_marker_invert",
            i,
            lw,
            marker_fill,
        ),
        pick: src.pick_at("pick_id", i),
    }
}

/// Whether `rows` are what is drawn: one for each row with a stroke, in order.
pub open spec fn is_segment_plan(
    src: Source,
    theme: SegmentTheme,
    projection: Projection,
    n: nat,
    rows: Seq<SegmentRow>,
) -> bool {
    let drawn = stroked_rows(src, theme, n);
    &&& rows.len() == drawn.len()
    &&& forall|k: int|
        0 <= k < rows.len() ==> is_segment_row(
            src,
            theme,
            projection,
            drawn[k],
            #[trigger] rows[k],
        )
}

impl SegmentGeom {
    /// What is drawn.
    pub fn draw(&self, scales: &ScaleOutputs, theme: &SegmentTheme, projection: &Projection) -> (r:
        Vec<SegmentRow>)
        ensures
            ({
                let src = Source {
                    channels: self.state.channels@,
                    values: scales.values@,
                    positions: scales.positions@,
                };
                &&& is_placed(src) ==> is_segment_plan(
                    src,
                    *theme,
                    *projection,
                    self.state.keys.count(),
                    r@,
                )
                &&& !is_placed(src) ==> r@.len() == 0
            }),
    {
        let src = Bound { channels: &self.state.channels, scales };
        let mut rows: Vec<SegmentRow> = Vec::new();
        if !src.places_rows("x") || !src.places_rows("y") || !src.places_rows("x2")
            || !src.places_rows("y2") {
            return rows;
        }
        let n: usize = self.len();
        let mut i: usize = 0;
        while i < n
            invariant
                i <= n,
                is_placed(src@),
                is_segment_plan(src@, *theme, *projection, i as nat, rows@),
            decreases n - i,
        {
            let color = src.color_or("stroke", i, theme.stroke);
            if let Some(stroke) = src.paint_of(color, "stroke_opacity", i) {
                rows.push(plan_row(&src, theme, projection, i, stroke));
            }
            i = i + 1;
        }
        rows
    }
}

/// What is drawn of a row of which `points` are left after trimming.
pub open spec fn ops_of(r: SegmentRow, points: nat) -> Seq<SegmentOp> {
    if points < 2 {
        Seq::empty()
    } else {
        (if r.start_marker is Some {
            seq![SegmentOp::StartMarker]
        } else {
            Seq::empty()
        }) + (if marker_free(r.pen.pattern) {
            seq![SegmentOp::Stroke]
        } else {
            seq![SegmentOp::Pattern]
        }) + (if r.end_marker is Some {
            seq![SegmentOp::EndMarker]
        } else {
            Seq::empty()
        })
    }
}

impl SegmentRow {
    /// Whether anything is trimmed off the start.
    pub fn trims_start(&self) -> (r: Cond)
        ensures
            r == c_positive(self.clip_start),
    {
        self.clip_start.is_positive()
    }

    /// Whether anything is trimmed off the end.
    pub fn trims_end(&self) -> (r: Cond)
        ensures
            r == c_positive(self.clip_end),
    {
        self.clip_end.is_positive()
    }

    /// What is drawn, in order, once trimming has left this many points: the
    /// marker at the start, the segment, the marker at the end. Of a segment
    /// that was trimmed away nothing is.
    pub fn ops(&self, points: usize) -> (r: Vec<SegmentOp>)
        ensures
            r@ == ops_of(*self, points as nat),
    {
        let mut r: Vec<SegmentOp> = Vec::new();
        if points < 2 {
            return r;
        }
        if self.start_marker.is_some() {
            r.push(SegmentOp::StartMarker);
        }
        if is_marker_free(&self.pen.pattern) {
            r.push(SegmentOp::Stroke);
        } else {
            r.push(SegmentOp::Pattern);
        }
        if self.end_marker.is_some() {
            r.push(SegmentOp::EndMarker);
        }
        assert(r@ =~= ops_of(*self, points as nat));
        r
    }
}

} // verus!
