//! From fractions of the panel to points in it.

use std::sync::Arc;
use vstd::prelude::*;

use crate::expr::{
    c_and, c_ge, c_gt, c_not, c_or, c_within, e_add, e_div, e_half, e_int, e_max, e_min, e_mul,
    e_neg, e_panel_h, e_panel_w, e_select, e_sub, holds, value, within, Cond, Env, Expr, Quantity,
};
use crate::names::same_name;
use crate::num::Num;
use crate::order::{
    are_distinct, ascending, count_where, sorted, sorted_numbers_rise, sorting_keeps_counts,
    sorting_keeps_numbers,
};
use crate::scene::Point;

verus! {

/// A quarter turn, as a bit pattern.
pub const QUARTER_TURN: u64 = 0x3FF9_21FB_5444_2D18;

/// Half a turn, as a bit pattern.
pub const HALF_TURN: u64 = 0x4009_21FB_5444_2D18;

/// A full turn, as a bit pattern.
pub const FULL_TURN: u64 = 0x4019_21FB_5444_2D18;

/// A quarter turn less a full one, as a bit pattern.
pub const FULL_CIRCLE_END: u64 = 0xC012_D97C_7F33_21D2;

/// Four tenths, as a bit pattern.
pub const GAUGE_HOLE: u64 = 0x3FD9_9999_9999_999A;

/// Nought, as a bit pattern.
pub const ZERO: u64 = 0;

/// One, as a bit pattern.
pub const ONE: u64 = 0x3FF0_0000_0000_0000;

/// How many pixels a drawn arc may stray from the true one.
pub const CHORD_ERROR_PX: i64 = 1;

/// The most steps that one arc is drawn in.
pub const MAX_INTERPOLATION_STEPS: usize = 720;

/// Where axes are drawn.
#[derive(Clone, Copy, Debug, PartialEq, Eq, Structural, Hash)]
pub enum ChromeStrategy {
    /// In the slots around the panel.
    PatchSlots,
    /// Within the panel.
    InsidePanel,
}

/// How edges between points run in polar coordinates.
#[derive(Clone, Copy, Debug, PartialEq, Eq, Structural, Hash)]
pub enum PolarEdgeStyle {
    /// Along arcs.
    Geodesic,
    /// Straight from break to break.
    Chord,
}

impl Default for PolarEdgeStyle {
    fn default() -> (r: PolarEdgeStyle)
        ensures
            r == PolarEdgeStyle::Geodesic,
    {
        PolarEdgeStyle::Geodesic
    }
}

/// The breaks of the angle, as fractions of the sweep.
#[derive(Debug)]
pub enum ThetaBreaks {
    /// The centres of this many equal bands.
    BandCentres(u32),
    /// At these fractions.
    At(Vec<Num>),
}

/// Polar coordinates on a disk, or part of one, within the panel.
#[derive(Debug)]
pub struct PolarProjection {
    /// The channel that gives the angle.
    pub angle_channel: String,
    /// The channel that gives the radius.
    pub radius_channel: String,
    /// The angle at the start of the sweep, in radians.
    pub theta_start: Num,
    /// The angle at the end of the sweep, in radians. A sweep towards smaller
    /// angles runs clockwise.
    pub theta_end: Num,
    /// The radius of the hole, as a fraction of the outer radius.
    pub inner_radius_frac: Num,
    /// How edges run.
    pub edge_style: PolarEdgeStyle,
    /// Where chords bend.
    pub theta_break_fracs: ThetaBreaks,
    /// Whether the swept region fills the panel, rather than the whole disk.
    pub fit_to_bbox: bool,
    /// The outer radius, as a fraction of the largest that fits.
    pub outer_radius_frac: Option<Num>,
}

/// How fractions become points.
#[derive(Debug)]
pub enum Projection {
    /// Across and up.
    Cartesian,
    /// Round and outward.
    Polar(PolarProjection),
}

/// Whether numbers are equal, one by one.
pub open spec fn equal_numbers(a: Seq<Num>, b: Seq<Num>) -> bool {
    &&& a.len() == b.len()
    &&& forall|k: int| 0 <= k < a.len() ==> (#[trigger] a[k]).equals(b[k])
}

fn are_equal_numbers(a: &Vec<Num>, b: &Vec<Num>) -> (r: bool)
    ensures
        r == equal_numbers(a@, b@),
{
    if a.len() != b.len() {
        return false;
    }
    let mut k: usize = 0;
    while k < a.len()
        invariant
            k <= a@.len(),
            a@.len() == b@.len(),
            forall|j: int| 0 <= j < k ==> (#[trigger] a@[j]).equals(b@[j]),
        decreases a@.len() - k,
    {
        if !a[k].is_equal(b[k]) {
            assert(!a@[k as int].equals(b@[k as int]));
            return false;
        }
        k = k + 1;
    }
    true
}

impl ThetaBreaks {
    /// Whether these are the same breaks, given in the same way.
    pub open spec fn same(self, other: ThetaBreaks) -> bool {
        match (self, other) {
            (ThetaBreaks::BandCentres(a), ThetaBreaks::BandCentres(b)) => a == b,
            (ThetaBreaks::At(a), ThetaBreaks::At(b)) => a@ == b@,
            _ => false,
        }
    }

    /// Whether breaks are equal as numbers. Breaks that are given in another way
    /// are not.
    pub open spec fn equals(self, other: ThetaBreaks) -> bool {
        match (self, other) {
            (ThetaBreaks::BandCentres(a), ThetaBreaks::BandCentres(b)) => a == b,
            (ThetaBreaks::At(a), ThetaBreaks::At(b)) => equal_numbers(a@, b@),
            _ => false,
        }
    }
}

impl Clone for ThetaBreaks {
    fn clone(&self) -> (r: ThetaBreaks)
        ensures
            r.same(*self),
    {
        match self {
            ThetaBreaks::BandCentres(n) => ThetaBreaks::BandCentres(*n),
            ThetaBreaks::At(v) => {
                let w = v.clone();
                assert(w@ =~= v@);
                ThetaBreaks::At(w)
            },
        }
    }
}

impl PartialEq for ThetaBreaks {
    fn eq(&self, other: &ThetaBreaks) -> (r: bool) {
        match (self, other) {
            (ThetaBreaks::BandCentres(a), ThetaBreaks::BandCentres(b)) => *a == *b,
            (ThetaBreaks::At(a), ThetaBreaks::At(b)) => are_equal_numbers(a, b),
            _ => false,
        }
    }
}

impl vstd::std_specs::cmp::PartialEqSpecImpl for ThetaBreaks {
    open spec fn obeys_eq_spec() -> bool {
        true
    }

    open spec fn eq_spec(&self, other: &ThetaBreaks) -> bool {
        self.equals(*other)
    }
}

impl PolarProjection {
    /// Whether this is the same projection.
    pub open spec fn same(self, other: PolarProjection) -> bool {
        &&& self.theta_break_fracs.same(other.theta_break_fracs)
        &&& self == (PolarProjection { theta_break_fracs: self.theta_break_fracs, ..other })
    }

    /// Whether two projections are equal, number by number.
    pub open spec fn equals(self, other: PolarProjection) -> bool {
        &&& self.angle_channel@ == other.angle_channel@
        &&& self.radius_channel@ == other.radius_channel@
        &&& self.theta_start.equals(other.theta_start)
        &&& self.theta_end.equals(other.theta_end)
        &&& self.inner_radius_frac.equals(other.inner_radius_frac)
        &&& self.edge_style == other.edge_style
        &&& self.theta_break_fracs.equals(other.theta_break_fracs)
        &&& self.fit_to_bbox == other.fit_to_bbox
        &&& match (self.outer_radius_frac, other.outer_radius_frac) {
            (Some(a), Some(b)) => a.equals(b),
            (None, None) => true,
            _ => false,
        }
    }
}

impl Clone for PolarProjection {
    fn clone(&self) -> (r: PolarProjection)
        ensures
            r.same(*self),
    {
        PolarProjection {
            angle_channel: self.angle_channel.clone(),
            radius_channel: self.radius_channel.clone(),
            theta_start: self.theta_start,
            theta_end: self.theta_end,
            inner_radius_frac: self.inner_radius_frac,
            edge_style: self.edge_style,
            theta_break_fracs: self.theta_break_fracs.clone(),
            fit_to_bbox: self.fit_to_bbox,
            outer_radius_frac: self.outer_radius_frac,
        }
    }
}

impl PartialEq for PolarProjection {
    fn eq(&self, other: &PolarProjection) -> (r: bool) {
        let outer = match (self.outer_radius_frac, other.outer_radius_frac) {
            (Some(a), Some(b)) => a.is_equal(b),
            (None, None) => true,
            _ => false,
        };
        outer && same_name(self.angle_channel.as_str(), other.angle_channel.as_str())
            && same_name(self.radius_channel.as_str(), other.radius_channel.as_str())
            && self.theta_start.is_equal(other.theta_start) && self.theta_end.is_equal(
            other.theta_end,
        ) && self.inner_radius_frac.is_equal(other.inner_radius_frac) && self.edge_style
            == other.edge_style && self.theta_break_fracs == other.theta_break_fracs
            && self.fit_to_bbox == other.fit_to_bbox
    }
}

impl vstd::std_specs::cmp::PartialEqSpecImpl for PolarProjection {
    open spec fn obeys_eq_spec() -> bool {
        true
    }

    open spec fn eq_spec(&self, other: &PolarProjection) -> bool {
        self.equals(*other)
    }
}

impl Projection {
    /// Whether this is the same projection.
    pub open spec fn same(self, other: Projection) -> bool {
        match (self, other) {
            (Projection::Cartesian, Projection::Cartesian) => true,
            (Projection::Polar(a), Projection::Polar(b)) => a.same(b),
            _ => false,
        }
    }

    /// Whether two projections are equal, number by number.
    pub open spec fn equals(self, other: Projection) -> bool {
        match (self, other) {
            (Projection::Cartesian, Projection::Cartesian) => true,
            (Projection::Polar(a), Projection::Polar(b)) => a.equals(b),
            _ => false,
        }
    }
}

impl Clone for Projection {
    fn clone(&self) -> (r: Projection)
        ensures
            r.same(*self),
    {
        match self {
            Projection::Cartesian => Projection::Cartesian,
            Projection::Polar(p) => Projection::Polar(p.clone()),
        }
    }
}

impl PartialEq for Projection {
    fn eq(&self, other: &Projection) -> (r: bool) {
        match (self, other) {
            (Projection::Cartesian, Projection::Cartesian) => true,
            (Projection::Polar(a), Projection::Polar(b)) => *a == *b,
            _ => false,
        }
    }
}

impl vstd::std_specs::cmp::PartialEqSpecImpl for Projection {
    open spec fn obeys_eq_spec() -> bool {
        true
    }

    open spec fn eq_spec(&self, other: &Projection) -> bool {
        self.equals(*other)
    }
}

/// Where the disk of a polar projection lies in the panel.
#[derive(Debug)]
pub struct PolarGeometry {
    /// The centre, across.
    pub cx: Expr,
    /// The centre, down.
    pub cy: Expr,
    /// The outer radius.
    pub r_outer: Expr,
    /// The radius of the hole.
    pub r_inner: Expr,
}

/// A point between the ends of an edge.
#[derive(Debug)]
pub struct InteriorSample {
    /// Across.
    pub px: Expr,
    /// Down.
    pub py: Expr,
    /// How far along the edge, as a fraction of it.
    pub t: Expr,
}

/// A point of the unit circle, or of a polygon in it; up is positive.
#[derive(Debug)]
pub struct UnitPoint {
    /// Across.
    pub x: Expr,
    /// Up.
    pub y: Expr,
}

/// A corner of the polygon that chords run along.
#[derive(Debug)]
pub struct Corner {
    /// Its fraction of the sweep.
    pub frac: Expr,
    /// Where it lies.
    pub at: UnitPoint,
}

/// The extent of a region, up being positive.
#[derive(Debug)]
pub struct Extent {
    /// The leftmost.
    pub min_x: Expr,
    /// The lowest.
    pub min_y: Expr,
    /// The rightmost.
    pub max_x: Expr,
    /// The highest.
    pub max_y: Expr,
}

// ---- what the formulas are ----

impl ThetaBreaks {
    /// How many breaks there are.
    pub open spec fn count(self) -> nat {
        match self {
            ThetaBreaks::BandCentres(n) => n as nat,
            ThetaBreaks::At(v) => v@.len(),
        }
    }

    /// Break `i`, in the order given.
    pub open spec fn frac(self, i: int) -> Expr {
        match self {
            ThetaBreaks::BandCentres(n) => Expr::Ratio((2 * i + 1) as i64, (2 * n) as u64),
            ThetaBreaks::At(v) => Expr::Lit(v@[i]),
        }
    }

    /// Break `i`, in ascending order.
    pub open spec fn sorted_frac(self, i: int) -> Expr {
        match self {
            ThetaBreaks::BandCentres(n) => self.frac(i),
            ThetaBreaks::At(v) => Expr::Lit(ascending(v@)[i]),
        }
    }

    /// The breaks in ascending order, with nought and one among them.
    pub open spec fn sorted_frac_with_ends(self, i: int) -> Expr {
        match self {
            ThetaBreaks::BandCentres(n) => if i == 0 {
                Expr::Lit(Num { bits: ZERO })
            } else if i <= n {
                self.frac(i - 1)
            } else {
                Expr::Lit(Num { bits: ONE })
            },
            ThetaBreaks::At(v) => Expr::Lit(ascending(seq![Num { bits: ZERO }] + v@ + seq![Num { bits: ONE }])[i]),
        }
    }
}

/// How far a number lies from nought.
pub open spec fn real_abs(x: real) -> real {
    if x < 0real {
        0real - x
    } else {
        x
    }
}

/// A point on the unit circle.
pub open spec fn on_circle(theta: Expr) -> UnitPoint {
    UnitPoint { x: Expr::Cos(Arc::new(theta)), y: Expr::Sin(Arc::new(theta)) }
}

/// An angle, taken round by `k` turns.
pub open spec fn taken_round(target: Expr, k: i64) -> Expr {
    e_add(target, e_mul(e_int(k), Expr::Lit(Num { bits: FULL_TURN })))
}

/// Whether `target`, taken round by `k` turns, lies within the sweep. A sweep
/// without length holds its start alone.
pub open spec fn c_in_sweep_by(target: Expr, start: Expr, span: Expr, k: i64) -> Cond {
    let narrow = c_within(span, 1_000_000_000_000);
    let along = e_sub(taken_round(target, k), start);
    let t = e_div(along, span);
    c_or(
        c_and(narrow, c_within(along, 1_000_000_000)),
        c_and(c_not(narrow), c_and(c_ge(t, e_int(0)), c_ge(e_int(1), t))),
    )
}

/// Whether `target` lies within the sweep from `start` to `end`, up to two
/// turns round.
pub open spec fn c_in_sweep(target: Expr, start: Expr, end: Expr) -> Cond {
    let span = e_sub(end, start);
    c_or(
        c_in_sweep_by(target, start, span, (-2int) as i64),
        c_or(
            c_in_sweep_by(target, start, span, (-1int) as i64),
            c_or(
                c_in_sweep_by(target, start, span, 0),
                c_or(
                    c_in_sweep_by(target, start, span, 1),
                    c_in_sweep_by(target, start, span, 2),
                ),
            ),
        ),
    )
}

/// The extent of one point.
pub open spec fn extent_of(p: UnitPoint) -> Extent {
    Extent { min_x: p.x, min_y: p.y, max_x: p.x, max_y: p.y }
}

/// The extent with a point taken in.
pub open spec fn extend(b: Extent, p: UnitPoint) -> Extent {
    Extent {
        min_x: e_min(b.min_x, p.x),
        min_y: e_min(b.min_y, p.y),
        max_x: e_max(b.max_x, p.x),
        max_y: e_max(b.max_y, p.y),
    }
}

/// The extent with a point taken in where `c` holds.
pub open spec fn extend_where(b: Extent, c: Cond, p: UnitPoint) -> Extent {
    let w = extend(b, p);
    Extent {
        min_x: e_select(c, w.min_x, b.min_x),
        min_y: e_select(c, w.min_y, b.min_y),
        max_x: e_select(c, w.max_x, b.max_x),
        max_y: e_select(c, w.max_y, b.max_y),
    }
}

/// A point, drawn in towards the centre.
pub open spec fn drawn_in(inner: Num, p: UnitPoint) -> UnitPoint {
    UnitPoint { x: e_mul(Expr::Lit(inner), p.x), y: e_mul(Expr::Lit(inner), p.y) }
}

/// The point `u` of the way from `lo` to `hi`.
pub open spec fn mixed(lo: UnitPoint, hi: UnitPoint, u: Expr) -> UnitPoint {
    UnitPoint {
        x: e_add(e_mul(lo.x, e_sub(e_int(1), u)), e_mul(hi.x, u)),
        y: e_add(e_mul(lo.y, e_sub(e_int(1), u)), e_mul(hi.y, u)),
    }
}

/// One point where `c` holds, else another.
pub open spec fn either(c: Cond, a: UnitPoint, b: UnitPoint) -> UnitPoint {
    UnitPoint { x: e_select(c, a.x, b.x), y: e_select(c, a.y, b.y) }
}

impl PolarProjection {
    /// The angle at a fraction of the sweep.
    pub open spec fn theta_at(self, frac: Expr) -> Expr {
        e_add(
            Expr::Lit(self.theta_start),
            e_mul(frac, e_sub(Expr::Lit(self.theta_end), Expr::Lit(self.theta_start))),
        )
    }

    /// Whether the sweep goes all the way round.
    pub open spec fn c_full_circle(self) -> Cond {
        let span = e_sub(Expr::Lit(self.theta_end), Expr::Lit(self.theta_start));
        c_within(e_sub(Expr::Abs(Arc::new(span)), Expr::Lit(Num { bits: FULL_TURN })), 1_000_000)
    }

    /// Whether the outer edge is a polygon.
    pub open spec fn is_polygon(self) -> bool {
        self.edge_style == PolarEdgeStyle::Chord && self.theta_break_fracs.count() > 0
    }

    /// The point of break `i`.
    pub open spec fn break_point(self, i: int) -> UnitPoint {
        on_circle(self.theta_at(self.theta_break_fracs.frac(i)))
    }

    /// The start of the sweep.
    pub open spec fn start_point(self) -> UnitPoint {
        on_circle(Expr::Lit(self.theta_start))
    }

    /// The end of the sweep.
    pub open spec fn end_point(self) -> UnitPoint {
        on_circle(Expr::Lit(self.theta_end))
    }

    /// The extent of the first `n` breaks, at least one.
    pub open spec fn breaks_extent(self, n: nat) -> Extent
        decreases n,
    {
        if n <= 1 {
            extent_of(self.break_point(0))
        } else {
            extend(self.breaks_extent((n - 1) as nat), self.break_point(n - 1))
        }
    }

    /// The extent with the first `n` breaks taken in, drawn in towards the
    /// centre.
    pub open spec fn inner_breaks_extent(self, b: Extent, n: nat) -> Extent
        decreases n,
    {
        if n == 0 {
            b
        } else {
            extend(
                self.inner_breaks_extent(b, (n - 1) as nat),
                drawn_in(self.inner_radius_frac, self.break_point(n - 1)),
            )
        }
    }

    /// The extent with the quarter turn `k` taken in where the sweep reaches
    /// it.
    pub open spec fn with_quarter(self, b: Extent, k: i64) -> Extent {
        let target = e_mul(e_int(k), Expr::Lit(Num { bits: QUARTER_TURN }));
        extend_where(
            b,
            c_in_sweep(target, Expr::Lit(self.theta_start), Expr::Lit(self.theta_end)),
            on_circle(target),
        )
    }

    /// The extent of the outer edge. A polygon reaches the ends of the sweep
    /// only where the sweep is no full circle.
    pub open spec fn outer_extent(self) -> Extent {
        if self.is_polygon() {
            let partial = c_not(self.c_full_circle());
            extend_where(
                extend_where(
                    self.breaks_extent(self.theta_break_fracs.count()),
                    partial,
                    self.start_point(),
                ),
                partial,
                self.end_point(),
            )
        } else {
            let ends = extend(extent_of(self.start_point()), self.end_point());
            self.with_quarter(
                self.with_quarter(
                    self.with_quarter(
                        self.with_quarter(
                            self.with_quarter(ends, (-2int) as i64),
                            (-1int) as i64,
                        ),
                        0,
                    ),
                    1,
                ),
                2,
            )
        }
    }

    /// The extent of the swept region, on a disk of radius one.
    pub open spec fn extent(self) -> Extent {
        let outer = self.outer_extent();
        if self.inner_radius_frac.above_zero() {
            if self.is_polygon() {
                self.inner_breaks_extent(outer, self.theta_break_fracs.count())
            } else {
                extend(
                    extend(outer, drawn_in(self.inner_radius_frac, self.start_point())),
                    drawn_in(self.inner_radius_frac, self.end_point()),
                )
            }
        } else {
            extend(outer, UnitPoint { x: e_int(0), y: e_int(0) })
        }
    }

    /// Where the disk lies, before a panel without room is seen to.
    pub open spec fn natural_geometry(self) -> PolarGeometry {
        let w = e_max(e_panel_w(), e_int(0));
        let h = e_max(e_panel_h(), e_int(0));
        let x0 = Expr::Var(Quantity::PanelX0);
        let y0 = Expr::Var(Quantity::PanelY0);
        let (cx, cy, max_radius) = if self.fit_to_bbox {
            let b = self.extent();
            let tiny = Expr::Ratio(1, 0x10_0000_0000_0000);
            let bw = e_max(e_sub(b.max_x, b.min_x), tiny);
            let bh = e_max(e_sub(b.max_y, b.min_y), tiny);
            let scale = e_min(e_div(w, bw), e_div(h, bh));
            let sw = e_mul(bw, scale);
            let sh = e_mul(bh, scale);
            (
                e_add(
                    e_add(x0, e_mul(e_sub(w, sw), e_half())),
                    e_mul(e_div(e_neg(b.min_x), bw), sw),
                ),
                e_add(
                    e_add(y0, e_mul(e_sub(h, sh), e_half())),
                    e_mul(e_sub(e_int(1), e_div(e_neg(b.min_y), bh)), sh),
                ),
                scale,
            )
        } else {
            (
                e_add(x0, e_mul(w, e_half())),
                e_add(y0, e_mul(h, e_half())),
                e_mul(e_min(w, h), e_half()),
            )
        };
        let r_outer = e_mul(
            max_radius,
            match self.outer_radius_frac {
                Some(f) => Expr::Lit(f),
                None => e_int(1),
            },
        );
        PolarGeometry { cx, cy, r_outer, r_inner: e_mul(r_outer, Expr::Lit(self.inner_radius_frac)) }
    }

    /// Where the disk lies in the panel. In a panel without room it is a point
    /// in the corner.
    pub open spec fn geometry_of(self) -> PolarGeometry {
        let g = self.natural_geometry();
        let room = c_has_room();
        PolarGeometry {
            cx: e_select(room, g.cx, Expr::Var(Quantity::PanelX0)),
            cy: e_select(room, g.cy, Expr::Var(Quantity::PanelY0)),
            r_outer: e_select(room, g.r_outer, e_int(0)),
            r_inner: e_select(room, g.r_inner, e_int(0)),
        }
    }

    /// Corner `i` of the polygon of a full circle, in ascending order.
    pub open spec fn corner(self, i: int) -> Corner {
        let f = self.theta_break_fracs.sorted_frac(i);
        Corner { frac: f, at: on_circle(self.theta_at(f)) }
    }

    /// Corner `i` of the polygon of part of a circle, the ends of the sweep
    /// among them, in ascending order.
    pub open spec fn corner_with_ends(self, i: int) -> Corner {
        let f = self.theta_break_fracs.sorted_frac_with_ends(i);
        Corner { frac: f, at: on_circle(self.theta_at(f)) }
    }

    /// The point at `t` on the polygon of a full circle.
    pub open spec fn on_closed_polygon(self, t: Expr, n: nat) -> UnitPoint {
        let first = self.corner(0);
        let last = self.corner(n - 1);
        let total = e_add(e_sub(e_int(1), last.frac), first.frac);
        let u = e_select(
            c_ge(t, last.frac),
            e_div(e_sub(t, last.frac), total),
            e_div(e_add(e_sub(e_int(1), last.frac), t), total),
        );
        self.on_edges(t, n, 0, false, mixed(last.at, first.at, u))
    }

    /// The point at `t` on the polygon of part of a circle.
    pub open spec fn on_open_polygon(self, t: Expr, n: nat) -> UnitPoint {
        let first = self.corner_with_ends(0);
        let last = self.corner_with_ends(n - 1);
        self.on_edges(t, n, 0, true, either(c_gt(first.frac, t), first.at, last.at))
    }

    /// The point at `t` on the first edge from corner `k` on that reaches it;
    /// `rest` where none does.
    pub open spec fn on_edges(
        self,
        t: Expr,
        n: nat,
        k: int,
        ends: bool,
        rest: UnitPoint,
    ) -> UnitPoint
        decreases n - k,
    {
        if k + 1 >= n {
            rest
        } else {
            let lo = if ends {
                self.corner_with_ends(k)
            } else {
                self.corner(k)
            };
            let hi = if ends {
                self.corner_with_ends(k + 1)
            } else {
                self.corner(k + 1)
            };
            either(
                c_reaches(lo.frac, hi.frac, t),
                mixed(lo.at, hi.at, e_div(e_sub(t, lo.frac), e_sub(hi.frac, lo.frac))),
                self.on_edges(t, n, k + 1, ends, rest),
            )
        }
    }

    /// The point of the outer edge at a fraction of the sweep.
    pub open spec fn unit_point(self, t: Expr) -> UnitPoint {
        if self.is_polygon() {
            let n = self.theta_break_fracs.count();
            either(
                self.c_full_circle(),
                self.on_closed_polygon(t, n),
                self.on_open_polygon(t, n + 2),
            )
        } else {
            on_circle(self.theta_at(t))
        }
    }

    /// The point at a fraction of the sweep and a fraction of the radius.
    pub open spec fn projected(self, theta_frac: Expr, r_frac: Expr) -> Point {
        let g = self.geometry_of();
        let u = self.unit_point(theta_frac);
        let r = e_add(g.r_inner, e_mul(r_frac, e_sub(g.r_outer, g.r_inner)));
        Point { x: e_add(g.cx, e_mul(r, u.x)), y: e_sub(g.cy, e_mul(r, u.y)) }
    }
}

/// Whether the panel has room.
pub open spec fn c_has_room() -> Cond {
    c_and(
        c_gt(e_max(e_panel_w(), e_int(0)), e_int(0)),
        c_gt(e_max(e_panel_h(), e_int(0)), e_int(0)),
    )
}

/// Whether the edge from `lo` to `hi` reaches `t`.
pub open spec fn c_reaches(lo: Expr, hi: Expr, t: Expr) -> Cond {
    c_and(c_ge(t, lo), c_and(c_ge(hi, t), c_gt(hi, lo)))
}

/// The channel `i`, or nought where there is none.
pub open spec fn channel_or_zero(channels: Seq<Expr>, i: int) -> Expr {
    if i < channels.len() {
        channels[i]
    } else {
        e_int(0)
    }
}

impl Projection {
    /// The point at these fractions.
    pub open spec fn point_at(self, a: Expr, b: Expr) -> Point {
        match self {
            Projection::Cartesian => Point {
                x: e_add(Expr::Var(Quantity::PanelX0), e_mul(a, e_panel_w())),
                y: e_sub(Expr::Var(Quantity::PanelY1), e_mul(b, e_panel_h())),
            },
            Projection::Polar(p) => p.projected(a, b),
        }
    }
}

// ---- building them ----

fn circle_point(theta: Expr) -> (r: UnitPoint)
    ensures
        r == on_circle(theta),
{
    UnitPoint { x: Expr::Cos(Arc::new(theta.again())), y: Expr::Sin(Arc::new(theta)) }
}

fn in_sweep_by(target: &Expr, start: &Expr, span: &Expr, k: i64) -> (r: Cond)
    ensures
        r == c_in_sweep_by(*target, *start, *span, k),
{
    let turned = target.again().plus(Expr::Ratio(k, 1).times(Expr::Lit(Num { bits: FULL_TURN })));
    let along = turned.minus(start.again());
    let narrow = within(span.again(), 1_000_000_000_000);
    let near = within(along.again(), 1_000_000_000);
    let t = along.over(span.again());
    let inside = Cond::ge(t.again(), Expr::Ratio(0, 1)).and(Cond::ge(Expr::Ratio(1, 1), t));
    narrow.again().and(near).or(narrow.negated().and(inside))
}

fn angle_in_sweep(target: &Expr, start: &Expr, end: &Expr) -> (r: Cond)
    ensures
        r == c_in_sweep(*target, *start, *end),
{
    let span = end.again().minus(start.again());
    let by1 = in_sweep_by(target, start, &span, 1).or(in_sweep_by(target, start, &span, 2));
    let by0 = in_sweep_by(target, start, &span, 0).or(by1);
    let by_1 = in_sweep_by(target, start, &span, -1).or(by0);
    in_sweep_by(target, start, &span, -2).or(by_1)
}

impl UnitPoint {
    /// The same point again.
    pub fn again(&self) -> (r: UnitPoint)
        ensures
            r == *self,
    {
        UnitPoint { x: self.x.again(), y: self.y.again() }
    }

    fn drawn_in(self, inner: Num) -> (r: UnitPoint)
        ensures
            r == drawn_in(inner, self),
    {
        UnitPoint { x: Expr::Lit(inner).times(self.x), y: Expr::Lit(inner).times(self.y) }
    }

    fn mixed_with(&self, hi: &UnitPoint, u: Expr) -> (r: UnitPoint)
        ensures
            r == mixed(*self, *hi, u),
    {
        let rest = Expr::Ratio(1, 1).minus(u.again());
        UnitPoint {
            x: self.x.again().times(rest.again()).plus(hi.x.again().times(u.again())),
            y: self.y.again().times(rest).plus(hi.y.again().times(u)),
        }
    }

    fn either(c: Cond, a: UnitPoint, b: UnitPoint) -> (r: UnitPoint)
        ensures
            r == either(c, a, b),
    {
        UnitPoint { x: Expr::select(c.again(), a.x, b.x), y: Expr::select(c, a.y, b.y) }
    }
}

impl Extent {
    fn of(p: UnitPoint) -> (r: Extent)
        ensures
            r == extent_of(p),
    {
        Extent { min_x: p.x.again(), min_y: p.y.again(), max_x: p.x, max_y: p.y }
    }

    fn extended(self, p: UnitPoint) -> (r: Extent)
        ensures
            r == extend(self, p),
    {
        Extent {
            min_x: self.min_x.at_most(p.x.again()),
            min_y: self.min_y.at_most(p.y.again()),
            max_x: self.max_x.at_least(p.x),
            max_y: self.max_y.at_least(p.y),
        }
    }

    /// The same extent again.
    pub fn again(&self) -> (r: Extent)
        ensures
            r == *self,
    {
        Extent {
            min_x: self.min_x.again(),
            min_y: self.min_y.again(),
            max_x: self.max_x.again(),
            max_y: self.max_y.again(),
        }
    }

    fn extended_where(self, c: Cond, p: UnitPoint) -> (r: Extent)
        ensures
            r == extend_where(self, c, p),
    {
        let w = self.again().extended(p);
        Extent {
            min_x: Expr::select(c.again(), w.min_x, self.min_x),
            min_y: Expr::select(c.again(), w.min_y, self.min_y),
            max_x: Expr::select(c.again(), w.max_x, self.max_x),
            max_y: Expr::select(c, w.max_y, self.max_y),
        }
    }
}

impl ThetaBreaks {
    /// How many breaks there are.
    pub fn len(&self) -> (r: usize)
        ensures
            r == self.count(),
    {
        match self {
            ThetaBreaks::BandCentres(n) => *n as usize,
            ThetaBreaks::At(v) => v.len(),
        }
    }

    /// The breaks in the order given.
    pub fn fracs(&self) -> (r: Vec<Expr>)
        ensures
            r@ == Seq::new(self.count(), |i: int| self.frac(i)),
    {
        let n: usize = self.len();
        let mut r: Vec<Expr> = Vec::new();
        let mut i: usize = 0;
        while i < n
            invariant
                i <= n,
                n == self.count(),
                r@ == Seq::new(i as nat, |k: int| self.frac(k)),
            decreases n - i,
        {
            match self {
                ThetaBreaks::BandCentres(m) => {
                    let p: i64 = 2 * (i as i64) + 1;
                    let q: u64 = 2 * (*m as u64);
                    r.push(Expr::Ratio(p, q));
                },
                ThetaBreaks::At(v) => r.push(Expr::Lit(v[i])),
            }
            i = i + 1;
            assert(r@ =~= Seq::new(i as nat, |k: int| self.frac(k)));
        }
        r
    }

    /// The breaks in ascending order.
    pub fn sorted_fracs(&self) -> (r: Vec<Expr>)
        ensures
            r@ == Seq::new(self.count(), |i: int| self.sorted_frac(i)),
    {
        match self {
            ThetaBreaks::BandCentres(_) => {
                let r = self.fracs();
                assert(r@ =~= Seq::new(self.count(), |i: int| self.sorted_frac(i)));
                r
            },
            ThetaBreaks::At(v) => {
                let s = sorted(v);
                proof {
                    sorting_keeps_numbers(v@);
                }
                let r = literals(&s);
                assert(r@ =~= Seq::new(self.count(), |i: int| self.sorted_frac(i)));
                r
            },
        }
    }

    /// The breaks in ascending order, with nought and one among them.
    pub fn sorted_fracs_with_ends(&self) -> (r: Vec<Expr>)
        ensures
            r@ == Seq::new(self.count() + 2, |i: int| self.sorted_frac_with_ends(i)),
    {
        match self {
            ThetaBreaks::BandCentres(n) => {
                let mut r = self.fracs();
                r.insert(0, Expr::Lit(Num { bits: ZERO }));
                r.push(Expr::Lit(Num { bits: ONE }));
                assert(r@ =~= Seq::new(
                    self.count() + 2,
                    |i: int| self.sorted_frac_with_ends(i),
                ));
                r
            },
            ThetaBreaks::At(v) => {
                let mut all: Vec<Num> = Vec::new();
                all.push(Num { bits: ZERO });
                let mut i: usize = 0;
                while i < v.len()
                    invariant
                        i <= v@.len(),
                        all@ == seq![Num { bits: ZERO }] + v@.take(i as int),
                    decreases v@.len() - i,
                {
                    all.push(v[i]);
                    assert(v@.take(i + 1) =~= v@.take(i as int).push(v@[i as int]));
                    i = i + 1;
                    assert(all@ =~= seq![Num { bits: ZERO }] + v@.take(i as int));
                }
                all.push(Num { bits: ONE });
                proof {
                    assert(v@.take(i as int) =~= v@);
                    assert(all@ =~= seq![Num { bits: ZERO }] + v@ + seq![Num { bits: ONE }]);
                    sorting_keeps_numbers(all@);
                }
                let s = sorted(&all);
                let r = literals(&s);
                assert(r@ =~= Seq::new(
                    self.count() + 2,
                    |i: int| self.sorted_frac_with_ends(i),
                ));
                r
            },
        }
    }
}

fn literals(v: &Vec<Num>) -> (r: Vec<Expr>)
    ensures
        r@ == Seq::new(v@.len(), |i: int| Expr::Lit(v@[i])),
{
    let mut r: Vec<Expr> = Vec::new();
    let mut i: usize = 0;
    while i < v.len()
        invariant
            i <= v@.len(),
            r@ == Seq::new(i as nat, |k: int| Expr::Lit(v@[k])),
        decreases v@.len() - i,
    {
        r.push(Expr::Lit(v[i]));
        i = i + 1;
        assert(r@ =~= Seq::new(i as nat, |k: int| Expr::Lit(v@[k])));
    }
    assert(r@ =~= Seq::new(v@.len(), |k: int| Expr::Lit(v@[k])));
    r
}

impl PolarProjection {
    /// A full circle, clockwise from the top.
    pub fn full_circle() -> (r: PolarProjection)
        ensures
            r.angle_channel@ == "x"@,
            r.radius_channel@ == "y"@,
            r.theta_start.bits == QUARTER_TURN,
            r.theta_end.bits == FULL_CIRCLE_END,
            r.inner_radius_frac.bits == ZERO,
            r.edge_style == PolarEdgeStyle::Geodesic,
            r.theta_break_fracs.count() == 0,
            r.fit_to_bbox,
            r.outer_radius_frac is None,
    {
        PolarProjection {
            angle_channel: "x".to_owned(),
            radius_channel: "y".to_owned(),
            theta_start: Num { bits: QUARTER_TURN },
            theta_end: Num { bits: FULL_CIRCLE_END },
            inner_radius_frac: Num { bits: ZERO },
            edge_style: PolarEdgeStyle::Geodesic,
            theta_break_fracs: ThetaBreaks::At(Vec::new()),
            fit_to_bbox: true,
            outer_radius_frac: None,
        }
    }

    /// The upper half of a disk, from left to right, with a hole of four tenths
    /// of its radius.
    pub fn gauge() -> (r: PolarProjection)
        ensures
            r.angle_channel@ == "x"@,
            r.radius_channel@ == "y"@,
            r.theta_start.bits == HALF_TURN,
            r.theta_end.bits == ZERO,
            r.inner_radius_frac.bits == GAUGE_HOLE,
            r.edge_style == PolarEdgeStyle::Geodesic,
            r.theta_break_fracs.count() == 0,
            r.fit_to_bbox,
            r.outer_radius_frac is None,
    {
        PolarProjection {
            angle_channel: "x".to_owned(),
            radius_channel: "y".to_owned(),
            theta_start: Num { bits: HALF_TURN },
            theta_end: Num { bits: ZERO },
            inner_radius_frac: Num { bits: GAUGE_HOLE },
            edge_style: PolarEdgeStyle::Geodesic,
            theta_break_fracs: ThetaBreaks::At(Vec::new()),
            fit_to_bbox: true,
            outer_radius_frac: None,
        }
    }

    /// A radar chart: a full circle, clockwise from the top, whose edges run
    /// straight between the centres of `n_categories` equal bands, two at
    /// least.
    pub fn radar(n_categories: u32) -> (r: PolarProjection)
        ensures
            r.angle_channel@ == "x"@,
            r.radius_channel@ == "y"@,
            r.theta_start.bits == QUARTER_TURN,
            r.theta_end.bits == FULL_CIRCLE_END,
            r.inner_radius_frac.bits == ZERO,
            r.edge_style == PolarEdgeStyle::Chord,
            r.theta_break_fracs == ThetaBreaks::BandCentres(
                if n_categories >= 2 {
                    n_categories
                } else {
                    2
                },
            ),
            r.fit_to_bbox,
            r.outer_radius_frac is None,
    {
        let n: u32 = if n_categories >= 2 {
            n_categories
        } else {
            2
        };
        PolarProjection {
            angle_channel: "x".to_owned(),
            radius_channel: "y".to_owned(),
            theta_start: Num { bits: QUARTER_TURN },
            theta_end: Num { bits: FULL_CIRCLE_END },
            inner_radius_frac: Num { bits: ZERO },
            edge_style: PolarEdgeStyle::Chord,
            theta_break_fracs: ThetaBreaks::BandCentres(n),
            fit_to_bbox: true,
            outer_radius_frac: None,
        }
    }

    fn has_polygon(&self) -> (r: bool)
        ensures
            r == self.is_polygon(),
    {
        match self.edge_style {
            PolarEdgeStyle::Chord => self.theta_break_fracs.len() > 0,
            PolarEdgeStyle::Geodesic => false,
        }
    }

    /// The angle at a fraction of the sweep.
    pub fn theta_for_frac(&self, frac: Expr) -> (r: Expr)
        ensures
            r == self.theta_at(frac),
    {
        Expr::Lit(self.theta_start).plus(
            frac.times(Expr::Lit(self.theta_end).minus(Expr::Lit(self.theta_start))),
        )
    }

    /// The condition that the sweep goes all the way round.
    pub fn is_full_circle(&self) -> (r: Cond)
        ensures
            r == self.c_full_circle(),
    {
        let span = Expr::Lit(self.theta_end).minus(Expr::Lit(self.theta_start));
        within(
            Expr::Abs(Arc::new(span)).minus(Expr::Lit(Num { bits: FULL_TURN })),
            1_000_000,
        )
    }

    fn break_points(&self) -> (r: Vec<UnitPoint>)
        ensures
            r@ == Seq::new(self.theta_break_fracs.count(), |i: int| self.break_point(i)),
    {
        let fracs = self.theta_break_fracs.fracs();
        let mut r: Vec<UnitPoint> = Vec::new();
        let mut i: usize = 0;
        while i < fracs.len()
            invariant
                i <= fracs@.len(),
                fracs@ == Seq::new(
                    self.theta_break_fracs.count(),
                    |k: int| self.theta_break_fracs.frac(k),
                ),
                r@ == Seq::new(i as nat, |k: int| self.break_point(k)),
            decreases fracs@.len() - i,
        {
            r.push(circle_point(self.theta_for_frac(fracs[i].again())));
            i = i + 1;
            assert(r@ =~= Seq::new(i as nat, |k: int| self.break_point(k)));
        }
        r
    }

    fn quarter_taken_in(&self, b: Extent, k: i64) -> (r: Extent)
        ensures
            r == self.with_quarter(b, k),
    {
        let target = Expr::Ratio(k, 1).times(Expr::Lit(Num { bits: QUARTER_TURN }));
        let reached = angle_in_sweep(
            &target,
            &Expr::Lit(self.theta_start),
            &Expr::Lit(self.theta_end),
        );
        b.extended_where(reached, circle_point(target))
    }

    fn outer_bounds(&self) -> (r: Extent)
        ensures
            r == self.outer_extent(),
    {
        let start = circle_point(Expr::Lit(self.theta_start));
        let end = circle_point(Expr::Lit(self.theta_end));
        if self.has_polygon() {
            let points = self.break_points();
            let n: usize = points.len();
            let mut b = Extent::of(points[0].again());
            let mut i: usize = 1;
            while i < n
                invariant
                    1 <= i <= n,
                    n == points@.len(),
                    points@ == Seq::new(
                        self.theta_break_fracs.count(),
                        |k: int| self.break_point(k),
                    ),
                    b == self.breaks_extent(i as nat),
                decreases n - i,
            {
                b = b.extended(points[i].again());
                i = i + 1;
            }
            let partial = self.is_full_circle().negated();
            b.extended_where(partial.again(), start).extended_where(partial, end)
        } else {
            let b0 = Extent::of(start).extended(end);
            let b1 = self.quarter_taken_in(b0, -2);
            let b2 = self.quarter_taken_in(b1, -1);
            let b3 = self.quarter_taken_in(b2, 0);
            let b4 = self.quarter_taken_in(b3, 1);
            self.quarter_taken_in(b4, 2)
        }
    }

    /// The extent of the swept region on a disk of radius one, up being
    /// positive.
    pub fn bounding_box_units(&self) -> (r: Extent)
        ensures
            r == self.extent(),
    {
        let outer = self.outer_bounds();
        if self.inner_radius_frac.is_above_zero() {
            if self.has_polygon() {
                let points = self.break_points();
                let n: usize = points.len();
                let ghost start = outer;
                let mut b = outer;
                let mut i: usize = 0;
                while i < n
                    invariant
                        i <= n,
                        n == points@.len(),
                        points@ == Seq::new(
                            self.theta_break_fracs.count(),
                            |k: int| self.break_point(k),
                        ),
                        b == self.inner_breaks_extent(start, i as nat),
                    decreases n - i,
                {
                    b = b.extended(points[i].again().drawn_in(self.inner_radius_frac));
                    i = i + 1;
                }
                b
            } else {
                let start = circle_point(Expr::Lit(self.theta_start));
                let end = circle_point(Expr::Lit(self.theta_end));
                outer.extended(start.drawn_in(self.inner_radius_frac)).extended(
                    end.drawn_in(self.inner_radius_frac),
                )
            }
        } else {
            outer.extended(UnitPoint { x: Expr::Ratio(0, 1), y: Expr::Ratio(0, 1) })
        }
    }

    fn geometry_with_room(&self) -> (r: PolarGeometry)
        ensures
            r == self.natural_geometry(),
    {
        let w = Expr::panel_w().at_least(Expr::Ratio(0, 1));
        let h = Expr::panel_h().at_least(Expr::Ratio(0, 1));
        let x0 = Expr::Var(Quantity::PanelX0);
        let y0 = Expr::Var(Quantity::PanelY0);
        let half = Expr::Ratio(1, 2);
        let (cx, cy, max_radius) = if self.fit_to_bbox {
            let b = self.bounding_box_units();
            let tiny = Expr::Ratio(1, 0x10_0000_0000_0000);
            let bw = b.max_x.minus(b.min_x.again()).at_least(tiny.again());
            let bh = b.max_y.minus(b.min_y.again()).at_least(tiny);
            let scale = w.again().over(bw.again()).at_most(h.again().over(bh.again()));
            let sw = bw.again().times(scale.again());
            let sh = bh.again().times(scale.again());
            let left = x0.plus(w.minus(sw.again()).times(half.again()));
            let top = y0.plus(h.minus(sh.again()).times(half));
            let across = b.min_x.negated().over(bw);
            let up = b.min_y.negated().over(bh);
            (
                left.plus(across.times(sw)),
                top.plus(Expr::Ratio(1, 1).minus(up).times(sh)),
                scale,
            )
        } else {
            (
                x0.plus(w.again().times(half.again())),
                y0.plus(h.again().times(half.again())),
                w.at_most(h).times(half),
            )
        };
        let r_outer = max_radius.times(
            match self.outer_radius_frac {
                Some(f) => Expr::Lit(f),
                None => Expr::Ratio(1, 1),
            },
        );
        let r_inner = r_outer.again().times(Expr::Lit(self.inner_radius_frac));
        PolarGeometry { cx, cy, r_outer, r_inner }
    }

    /// Where the disk lies in the panel.
    pub fn geometry(&self) -> (r: PolarGeometry)
        ensures
            r == self.geometry_of(),
    {
        let g = self.geometry_with_room();
        let zero = Expr::Ratio(0, 1);
        let room = Cond::gt(Expr::panel_w().at_least(zero.again()), zero.again()).and(
            Cond::gt(Expr::panel_h().at_least(zero.again()), zero.again()),
        );
        PolarGeometry {
            cx: Expr::select(room.again(), g.cx, Expr::Var(Quantity::PanelX0)),
            cy: Expr::select(room.again(), g.cy, Expr::Var(Quantity::PanelY0)),
            r_outer: Expr::select(room.again(), g.r_outer, zero.again()),
            r_inner: Expr::select(room, g.r_inner, zero),
        }
    }

    fn corners_of(&self, fracs: &Vec<Expr>) -> (r: Vec<Corner>)
        ensures
            r@ == Seq::new(
                fracs@.len(),
                |i: int| Corner { frac: fracs@[i], at: on_circle(self.theta_at(fracs@[i])) },
            ),
    {
        let mut r: Vec<Corner> = Vec::new();
        let mut i: usize = 0;
        while i < fracs.len()
            invariant
                i <= fracs@.len(),
                r@ == Seq::new(
                    i as nat,
                    |k: int| Corner { frac: fracs@[k], at: on_circle(self.theta_at(fracs@[k])) },
                ),
            decreases fracs@.len() - i,
        {
            let at = circle_point(self.theta_for_frac(fracs[i].again()));
            r.push(Corner { frac: fracs[i].again(), at });
            i = i + 1;
            assert(r@ =~= Seq::new(
                i as nat,
                |k: int| Corner { frac: fracs@[k], at: on_circle(self.theta_at(fracs@[k])) },
            ));
        }
        r
    }

    fn along_edges(&self, corners: &Vec<Corner>, t: &Expr, ends: bool, rest: UnitPoint) -> (r:
        UnitPoint)
        requires
            corners@.len() >= 1,
            forall|i: int|
                0 <= i < corners@.len() ==> #[trigger] corners@[i] == (if ends {
                    self.corner_with_ends(i)
                } else {
                    self.corner(i)
                }),
        ensures
            r == self.on_edges(*t, corners@.len(), 0, ends, rest),
    {
        let n: usize = corners.len();
        let ghost last = rest;
        let mut r = rest;
        let mut k: usize = n - 1;
        proof {
            assert(self.on_edges(*t, n as nat, n - 1, ends, last) == last);
        }
        while k > 0
            invariant
                k <= n - 1,
                n == corners@.len(),
                forall|i: int|
                    0 <= i < corners@.len() ==> #[trigger] corners@[i] == (if ends {
                        self.corner_with_ends(i)
                    } else {
                        self.corner(i)
                    }),
                r == self.on_edges(*t, n as nat, k as int, ends, last),
            decreases k,
        {
            let lo = &corners[k - 1];
            let hi = &corners[k];
            let reaches = Cond::ge(t.again(), lo.frac.again()).and(
                Cond::ge(hi.frac.again(), t.again()).and(
                    Cond::gt(hi.frac.again(), lo.frac.again()),
                ),
            );
            let u = t.again().minus(lo.frac.again()).over(hi.frac.again().minus(lo.frac.again()));
            r = UnitPoint::either(reaches, lo.at.mixed_with(&hi.at, u), r);
            k = k - 1;
        }
        r
    }

    fn chord_unit_position(&self, t: &Expr) -> (r: UnitPoint)
        requires
            self.is_polygon(),
        ensures
            r == self.unit_point(*t),
    {
        let closed = self.corners_of(&self.theta_break_fracs.sorted_fracs());
        let open = self.corners_of(&self.theta_break_fracs.sorted_fracs_with_ends());
        let n: usize = closed.len();
        let m: usize = open.len();
        let one = Expr::Ratio(1, 1);
        let total = one.again().minus(closed[n - 1].frac.again()).plus(closed[0].frac.again());
        let wrapped = Expr::select(
            Cond::ge(t.again(), closed[n - 1].frac.again()),
            t.again().minus(closed[n - 1].frac.again()).over(total.again()),
            one.minus(closed[n - 1].frac.again()).plus(t.again()).over(total),
        );
        let wrap = closed[n - 1].at.mixed_with(&closed[0].at, wrapped);
        let on_closed = self.along_edges(&closed, t, false, wrap);
        let beyond = UnitPoint::either(
            Cond::gt(open[0].frac.again(), t.again()),
            open[0].at.again(),
            open[m - 1].at.again(),
        );
        let on_open = self.along_edges(&open, t, true, beyond);
        UnitPoint::either(self.is_full_circle(), on_closed, on_open)
    }

    /// The point of the outer edge at a fraction of the sweep, on a disk of
    /// radius one.
    pub fn unit_position(&self, theta_frac: &Expr) -> (r: UnitPoint)
        ensures
            r == self.unit_point(*theta_frac),
    {
        if self.has_polygon() {
            self.chord_unit_position(theta_frac)
        } else {
            circle_point(self.theta_for_frac(theta_frac.again()))
        }
    }

    /// The point at a fraction of the sweep and a fraction of the radius.
    pub fn project_frac(&self, theta_frac: &Expr, r_frac: &Expr) -> (r: Point)
        ensures
            r == self.projected(*theta_frac, *r_frac),
    {
        let g = self.geometry();
        let u = self.unit_position(theta_frac);
        let radius = g.r_inner.again().plus(r_frac.again().times(g.r_outer.minus(g.r_inner)));
        Point { x: g.cx.plus(radius.again().times(u.x)), y: g.cy.minus(radius.times(u.y)) }
    }
}

impl Default for Projection {
    fn default() -> (r: Projection)
        ensures
            r is Cartesian,
    {
        Projection::Cartesian
    }
}

impl Projection {
    /// Across and up.
    pub fn cartesian() -> (r: Projection)
        ensures
            r is Cartesian,
    {
        Projection::Cartesian
    }

    /// See [`PolarProjection::full_circle`].
    pub fn polar() -> (r: Projection)
        ensures
            r matches Projection::Polar(p) && p.theta_start.bits == QUARTER_TURN && p.theta_end.bits
                == FULL_CIRCLE_END && p.inner_radius_frac.bits == ZERO && p.edge_style
                == PolarEdgeStyle::Geodesic && p.fit_to_bbox && p.outer_radius_frac is None
                && p.theta_break_fracs.count() == 0 && p.angle_channel@ == "x"@
                && p.radius_channel@ == "y"@,
    {
        Projection::Polar(PolarProjection::full_circle())
    }

    /// See [`PolarProjection::gauge`].
    pub fn gauge() -> (r: Projection)
        ensures
            r matches Projection::Polar(p) && p.theta_start.bits == HALF_TURN && p.theta_end.bits
                == ZERO && p.inner_radius_frac.bits == GAUGE_HOLE && p.edge_style
                == PolarEdgeStyle::Geodesic && p.fit_to_bbox && p.outer_radius_frac is None
                && p.theta_break_fracs.count() == 0 && p.angle_channel@ == "x"@
                && p.radius_channel@ == "y"@,
    {
        Projection::Polar(PolarProjection::gauge())
    }

    /// See [`PolarProjection::radar`].
    pub fn radar(n_categories: u32) -> (r: Projection)
        ensures
            r matches Projection::Polar(p) && p.theta_start.bits == QUARTER_TURN && p.theta_end.bits
                == FULL_CIRCLE_END && p.inner_radius_frac.bits == ZERO && p.edge_style
                == PolarEdgeStyle::Chord && p.fit_to_bbox && p.outer_radius_frac is None
                && p.theta_break_fracs == ThetaBreaks::BandCentres(
                if n_categories >= 2 {
                    n_categories
                } else {
                    2
                },
            ) && p.angle_channel@ == "x"@ && p.radius_channel@ == "y"@,
    {
        Projection::Polar(PolarProjection::radar(n_categories))
    }

    /// The channels that the projection reads, in the order in which
    /// [`Self::project_to_panel_px`] takes them.
    pub fn consume_channels(&self) -> (r: Vec<&str>)
        ensures
            r@.len() == 2,
            match *self {
                Projection::Cartesian => r@[0]@ == "x"@ && r@[1]@ == "y"@,
                Projection::Polar(p) => r@[0]@ == p.angle_channel@ && r@[1]@ == p.radius_channel@,
            },
    {
        let mut r: Vec<&str> = Vec::new();
        match self {
            Projection::Cartesian => {
                r.push("x");
                r.push("y");
            },
            Projection::Polar(p) => {
                r.push(p.angle_channel.as_str());
                r.push(p.radius_channel.as_str());
            },
        }
        r
    }

    /// The point at these fractions. A channel that is missing counts as
    /// nought, and one too many is ignored.
    pub fn project_to_panel_px(&self, channels: &[Expr]) -> (r: Point)
        ensures
            r == self.point_at(channel_or_zero(channels@, 0), channel_or_zero(channels@, 1)),
    {
        let a = if channels.len() > 0 {
            channels[0].again()
        } else {
            Expr::Ratio(0, 1)
        };
        let b = if channels.len() > 1 {
            channels[1].again()
        } else {
            Expr::Ratio(0, 1)
        };
        self.project(&a, &b)
    }

    /// The point at two fractions.
    pub fn project(&self, a: &Expr, b: &Expr) -> (r: Point)
        ensures
            r == self.point_at(*a, *b),
    {
        match self {
            Projection::Cartesian => Point {
                x: Expr::Var(Quantity::PanelX0).plus(a.again().times(Expr::panel_w())),
                y: Expr::Var(Quantity::PanelY1).minus(b.again().times(Expr::panel_h())),
            },
            Projection::Polar(p) => p.project_frac(a, b),
        }
    }

    /// Where the projection wants its axes drawn.
    pub fn chrome_strategy(&self) -> (r: ChromeStrategy)
        ensures
            r == (match *self {
                Projection::Cartesian => ChromeStrategy::PatchSlots,
                Projection::Polar(_) => ChromeStrategy::InsidePanel,
            }),
    {
        match self {
            Projection::Cartesian => ChromeStrategy::PatchSlots,
            Projection::Polar(_) => ChromeStrategy::InsidePanel,
        }
    }

    /// Whether straight lines stay straight.
    pub fn is_linear(&self) -> (r: bool)
        ensures
            r == (*self is Cartesian),
    {
        match self {
            Projection::Cartesian => true,
            Projection::Polar(_) => false,
        }
    }

    /// The polar projection, if it is one.
    pub fn as_polar(&self) -> (r: Option<&PolarProjection>)
        ensures
            match r {
                Some(p) => *self == Projection::Polar(*p),
                None => *self is Cartesian,
            },
    {
        match self {
            Projection::Polar(p) => Some(p),
            Projection::Cartesian => None,
        }
    }
}

// ---- points between the ends of an edge ----

/// An end of an edge: its fractions of the panel.
#[derive(Debug)]
pub struct Fractions {
    /// The first channel.
    pub a: Expr,
    /// The second channel.
    pub b: Expr,
}

/// A point between the ends of an edge, where a condition holds.
#[derive(Debug)]
pub struct GuardedSample {
    /// The condition.
    pub when: Cond,
    /// The point.
    pub sample: InteriorSample,
}

/// What the painter has to find out about an edge before it can be drawn.
#[derive(Debug)]
pub struct EdgeQuestions {
    /// How many steps it takes, before rounding up.
    pub steps: Expr,
    /// Whether the angle's fraction rises along it.
    pub rises: Cond,
}

/// What the painter found out.
#[derive(Clone, Copy, Debug)]
pub struct EdgeFacts {
    /// How many steps it takes, rounded up.
    pub steps: usize,
    /// Whether the angle's fraction rises along it.
    pub rises: bool,
}

/// `start + t * (end - start)`.
pub open spec fn e_along(start: Expr, end: Expr, t: Expr) -> Expr {
    e_add(start, e_mul(t, e_sub(end, start)))
}

/// The number of steps, between one and the most that are taken.
pub open spec fn steps_taken(steps: usize) -> nat {
    if steps < 1 {
        1
    } else if steps > MAX_INTERPOLATION_STEPS {
        MAX_INTERPOLATION_STEPS as nat
    } else {
        steps as nat
    }
}

impl PolarProjection {
    /// How many steps an arc takes: the step is as large as keeps the chord
    /// within a pixel of the arc.
    pub open spec fn arc_steps(self, from: Fractions, to: Fractions) -> Expr {
        let g = self.geometry_of();
        let delta = Expr::Abs(Arc::new(e_sub(self.theta_at(to.a), self.theta_at(from.a))));
        let mean = e_mul(e_add(from.b, to.b), e_half());
        let radius = e_max(
            e_add(g.r_inner, e_mul(mean, e_sub(g.r_outer, g.r_inner))),
            e_int(1),
        );
        let widest = Expr::Sqrt(
            Arc::new(e_div(e_mul(e_int(CHORD_ERROR_PX), e_int(8)), radius)),
        );
        e_div(delta, widest)
    }

    /// Whether an arc goes round at all.
    pub open spec fn c_goes_round(self, from: Fractions, to: Fractions) -> Cond {
        c_not(c_within(e_sub(self.theta_at(to.a), self.theta_at(from.a)), 1_000_000_000))
    }

    /// The sample `t` of the way along an edge.
    pub open spec fn sample_at(
        self,
        from: Fractions,
        to: Fractions,
        theta: Expr,
        t: Expr,
    ) -> InteriorSample {
        let p = self.projected(theta, e_along(from.b, to.b, t));
        InteriorSample { px: p.x, py: p.y, t }
    }

    /// The samples of an arc drawn in `n` steps: one at each step but the ends.
    pub open spec fn arc_samples(self, from: Fractions, to: Fractions, n: nat) -> Seq<
        GuardedSample,
    > {
        Seq::new(
            (n - 1) as nat,
            |k: int|
                {
                    let t = Expr::Ratio((k + 1) as i64, n as u64);
                    GuardedSample {
                        when: self.c_goes_round(from, to),
                        sample: self.sample_at(from, to, e_along(from.a, to.a, t), t),
                    }
                },
        )
    }

    /// Where along an edge break `i` is crossed.
    pub open spec fn crossing(self, from: Fractions, to: Fractions, i: int) -> Expr {
        e_div(
            e_sub(self.theta_break_fracs.sorted_frac(i), from.a),
            e_sub(to.a, from.a),
        )
    }

    /// Whether break `i` is crossed between the ends of an edge.
    pub open spec fn c_crosses(self, from: Fractions, to: Fractions, i: int) -> Cond {
        let t = self.crossing(from, to, i);
        let margin = Expr::Ratio(1, 1_000_000_000);
        c_and(
            c_not(c_within(e_sub(to.a, from.a), 1_000_000_000_000)),
            c_and(c_gt(t, margin), c_gt(e_sub(e_int(1), margin), t)),
        )
    }

    /// The samples of an edge that bends where it crosses a break, in the order
    /// in which it crosses them.
    pub open spec fn chord_samples(self, from: Fractions, to: Fractions, rises: bool) -> Seq<
        GuardedSample,
    > {
        let n = self.theta_break_fracs.count();
        Seq::new(
            n,
            |k: int|
                {
                    let i = if rises {
                        k
                    } else {
                        n - 1 - k
                    };
                    let t = self.crossing(from, to, i);
                    GuardedSample {
                        when: self.c_crosses(from, to, i),
                        sample: self.sample_at(
                            from,
                            to,
                            e_add(from.a, e_mul(t, e_sub(to.a, from.a))),
                            t,
                        ),
                    }
                },
        )
    }
}

impl Projection {
    /// The samples between the ends of an edge.
    pub open spec fn samples_between(
        self,
        from: Fractions,
        to: Fractions,
        facts: EdgeFacts,
    ) -> Seq<GuardedSample> {
        match self {
            Projection::Cartesian => Seq::empty(),
            Projection::Polar(p) => match p.edge_style {
                PolarEdgeStyle::Geodesic => p.arc_samples(from, to, steps_taken(facts.steps)),
                PolarEdgeStyle::Chord => p.chord_samples(from, to, facts.rises),
            },
        }
    }
}

impl Fractions {
    /// The same fractions again.
    pub fn again(&self) -> (r: Fractions)
        ensures
            r == *self,
    {
        Fractions { a: self.a.again(), b: self.b.again() }
    }
}

fn along(start: &Expr, end: &Expr, t: &Expr) -> (r: Expr)
    ensures
        r == e_along(*start, *end, *t),
{
    start.again().plus(t.again().times(end.again().minus(start.again())))
}

impl PolarProjection {
    fn sample(&self, from: &Fractions, to: &Fractions, theta: &Expr, t: Expr) -> (r:
        InteriorSample)
        ensures
            r == self.sample_at(*from, *to, *theta, t),
    {
        let radius = along(&from.b, &to.b, &t);
        let p = self.project_frac(theta, &radius);
        InteriorSample { px: p.x, py: p.y, t }
    }

    fn steps_of_arc(&self, from: &Fractions, to: &Fractions) -> (r: Expr)
        ensures
            r == self.arc_steps(*from, *to),
    {
        let g = self.geometry();
        let delta = Expr::Abs(
            Arc::new(
                self.theta_for_frac(to.a.again()).minus(self.theta_for_frac(from.a.again())),
            ),
        );
        let mean = from.b.again().plus(to.b.again()).times(Expr::Ratio(1, 2));
        let radius = g.r_inner.again().plus(mean.times(g.r_outer.minus(g.r_inner))).at_least(
            Expr::Ratio(1, 1),
        );
        let widest = Expr::Sqrt(
            Arc::new(Expr::Ratio(CHORD_ERROR_PX, 1).times(Expr::Ratio(8, 1)).over(radius)),
        );
        delta.over(widest)
    }

    fn polar_geodesic_samples(&self, from: &Fractions, to: &Fractions, steps: usize) -> (r: Vec<
        GuardedSample,
    >)
        ensures
            r@ == self.arc_samples(*from, *to, steps_taken(steps)),
    {
        let n: usize = if steps < 1 {
            1
        } else if steps > MAX_INTERPOLATION_STEPS {
            MAX_INTERPOLATION_STEPS
        } else {
            steps
        };
        let goes_round = within(
            self.theta_for_frac(to.a.again()).minus(self.theta_for_frac(from.a.again())),
            1_000_000_000,
        ).negated();
        let ghost all = self.arc_samples(*from, *to, n as nat);
        let mut r: Vec<GuardedSample> = Vec::new();
        let mut i: usize = 1;
        while i < n
            invariant
                1 <= i <= n <= 720,
                all == self.arc_samples(*from, *to, n as nat),
                goes_round == self.c_goes_round(*from, *to),
                r@ == all.take(i - 1),
            decreases n - i,
        {
            let t = Expr::Ratio(i as i64, n as u64);
            let theta = along(&from.a, &to.a, &t);
            r.push(
                GuardedSample {
                    when: goes_round.again(),
                    sample: self.sample(from, to, &theta, t),
                },
            );
            i = i + 1;
            assert(r@ =~= all.take(i - 1));
        }
        assert(all.take(n - 1) =~= all);
        r
    }

    fn polar_chord_samples(&self, from: &Fractions, to: &Fractions, rises: bool) -> (r: Vec<
        GuardedSample,
    >)
        ensures
            r@ == self.chord_samples(*from, *to, rises),
    {
        let fracs = self.theta_break_fracs.sorted_fracs();
        let n: usize = fracs.len();
        let ghost all = self.chord_samples(*from, *to, rises);
        let moves = within(to.a.again().minus(from.a.again()), 1_000_000_000_000).negated();
        let margin = Expr::Ratio(1, 1_000_000_000);
        let mut r: Vec<GuardedSample> = Vec::new();
        let mut k: usize = 0;
        while k < n
            invariant
                k <= n,
                n == fracs@.len(),
                n == self.theta_break_fracs.count(),
                fracs@ == Seq::new(
                    self.theta_break_fracs.count(),
                    |i: int| self.theta_break_fracs.sorted_frac(i),
                ),
                all == self.chord_samples(*from, *to, rises),
                moves == c_not(c_within(e_sub(to.a, from.a), 1_000_000_000_000)),
                margin == Expr::Ratio(1, 1_000_000_000),
                r@ == all.take(k as int),
            decreases n - k,
        {
            let i: usize = if rises {
                k
            } else {
                n - 1 - k
            };
            let delta = to.a.again().minus(from.a.again());
            let t = fracs[i].again().minus(from.a.again()).over(delta.again());
            let crosses = moves.again().and(
                Cond::gt(t.again(), margin.again()).and(
                    Cond::gt(Expr::Ratio(1, 1).minus(margin.again()), t.again()),
                ),
            );
            let theta = from.a.again().plus(t.again().times(delta));
            r.push(GuardedSample { when: crosses, sample: self.sample(from, to, &theta, t) });
            k = k + 1;
            assert(r@ =~= all.take(k as int));
        }
        assert(all.take(n as int) =~= all);
        r
    }
}

impl Projection {
    /// What has to be known about an edge before the points between its ends
    /// can be given.
    pub fn edge_questions(&self, from: &Fractions, to: &Fractions) -> (r: EdgeQuestions)
        ensures
            r.rises == c_gt(to.a, from.a),
            r.steps == (match *self {
                Projection::Cartesian => e_int(0),
                Projection::Polar(p) => p.arc_steps(*from, *to),
            }),
    {
        EdgeQuestions {
            steps: match self {
                Projection::Cartesian => Expr::Ratio(0, 1),
                Projection::Polar(p) => p.steps_of_arc(from, to),
            },
            rises: Cond::gt(to.a.again(), from.a.again()),
        }
    }

    /// Appends the points between the ends of an edge, with how far along each
    /// lies. A projection that keeps lines straight needs none.
    pub fn interpolate_segment_with_t(
        &self,
        from: &Fractions,
        to: &Fractions,
        facts: EdgeFacts,
        out: &mut Vec<GuardedSample>,
    )
        ensures
            final(out)@ == old(out)@ + self.samples_between(*from, *to, facts),
    {
        let mut samples = match self {
            Projection::Cartesian => Vec::new(),
            Projection::Polar(p) => match p.edge_style {
                PolarEdgeStyle::Geodesic => p.polar_geodesic_samples(from, to, facts.steps),
                PolarEdgeStyle::Chord => p.polar_chord_samples(from, to, facts.rises),
            },
        };
        out.append(&mut samples);
    }

    /// Appends the points between the ends of an edge.
    pub fn interpolate_segment(
        &self,
        from: &Fractions,
        to: &Fractions,
        facts: EdgeFacts,
        out: &mut Vec<(Cond, Point)>,
    )
        ensures
            final(out)@ == old(out)@ + self.samples_between(*from, *to, facts).map_values(
                |s: GuardedSample| (s.when, Point { x: s.sample.px, y: s.sample.py }),
            ),
    {
        let mut samples: Vec<GuardedSample> = Vec::new();
        self.interpolate_segment_with_t(from, to, facts, &mut samples);
        let ghost before = out@;
        let ghost all = self.samples_between(*from, *to, facts);
        let ghost point = |s: GuardedSample| (s.when, Point { x: s.sample.px, y: s.sample.py });
        assert(samples@ =~= all);
        let mut i: usize = 0;
        while i < samples.len()
            invariant
                i <= samples@.len(),
                samples@ == all,
                point == (|s: GuardedSample| (s.when, Point { x: s.sample.px, y: s.sample.py })),
                out@ == before + all.take(i as int).map_values(point),
            decreases samples@.len() - i,
        {
            let s = &samples[i];
            out.push((s.when.again(), Point { x: s.sample.px.again(), y: s.sample.py.again() }));
            i = i + 1;
            assert(out@ =~= before + all.take(i as int).map_values(point));
        }
        assert(all.take(i as int) =~= all);
    }
}

// ---- laws ----

/// The four corners of the panel are where the fractions nought and one lead,
/// the second channel running upwards.
pub proof fn cartesian_corners(env: Env)
    ensures
        ({
            let zero = e_int(0);
            let one = e_int(1);
            let c = Projection::Cartesian;
            &&& value(c.point_at(zero, zero).x, env) == (env.var)(Quantity::PanelX0)
            &&& value(c.point_at(zero, zero).y, env) == (env.var)(Quantity::PanelY1)
            &&& value(c.point_at(one, one).x, env) == (env.var)(Quantity::PanelX1)
            &&& value(c.point_at(one, one).y, env) == (env.var)(Quantity::PanelY0)
        }),
{
    reveal_with_fuel(value, 4);
    let w = (env.var)(Quantity::PanelX1) - (env.var)(Quantity::PanelX0);
    let h = (env.var)(Quantity::PanelY1) - (env.var)(Quantity::PanelY0);
    assert(0real / 1real == 0real && 1real / 1real == 1real);
    assert(0real * w == 0real && 1real * w == w) by (nonlinear_arith);
    assert(0real * h == 0real && 1real * h == h) by (nonlinear_arith);
}

/// The sweep starts and ends at its two angles.
pub proof fn sweep_ends(p: PolarProjection, env: Env)
    ensures
        value(p.theta_at(e_int(0)), env) == p.theta_start.value(),
        value(p.theta_at(e_int(1)), env) == p.theta_end.value(),
{
    reveal_with_fuel(value, 4);
    let d = p.theta_end.value() - p.theta_start.value();
    assert(0real / 1real == 0real && 1real / 1real == 1real);
    assert(0real * d == 0real && 1real * d == d) by (nonlinear_arith);
}

/// Without breaks, how edges run does not change where points lie.
pub proof fn edge_style_moves_no_point(p: PolarProjection, q: PolarProjection, a: Expr, b: Expr)
    requires
        p.theta_start == q.theta_start,
        p.theta_end == q.theta_end,
        p.inner_radius_frac == q.inner_radius_frac,
        p.fit_to_bbox == q.fit_to_bbox,
        p.outer_radius_frac == q.outer_radius_frac,
        p.theta_break_fracs.count() == 0,
        q.theta_break_fracs.count() == 0,
    ensures
        p.projected(a, b) == q.projected(a, b),
{
    assert(p.extent() == q.extent());
}

/// The steps of an arc lie strictly between its ends, and each comes after the
/// one before.
pub proof fn arc_steps_advance(p: PolarProjection, from: Fractions, to: Fractions, n: nat, env: Env)
    requires
        1 <= n <= MAX_INTERPOLATION_STEPS,
    ensures
        ({
            let s = p.arc_samples(from, to, n);
            &&& forall|k: int|
                #![trigger s[k]]
                0 <= k < s.len() ==> 0real < value(s[k].sample.t, env) < 1real
            &&& forall|j: int, k: int|
                #![trigger s[j], s[k]]
                0 <= j < k < s.len() ==> value(s[j].sample.t, env) < value(s[k].sample.t, env)
        }),
{
    let s = p.arc_samples(from, to, n);
    let d = n as real;
    assert forall|k: int| #![trigger s[k]] 0 <= k < s.len() implies 0real < value(
        s[k].sample.t,
        env,
    ) < 1real by {
        assert(s[k].sample.t == Expr::Ratio((k + 1) as i64, n as u64));
        let x = (k + 1) as real;
        assert(0real < x / d && x / d < 1real) by (nonlinear_arith)
            requires
                0real < x < d,
        ;
    }
    assert forall|j: int, k: int| #![trigger s[j], s[k]] 0 <= j < k < s.len() implies value(
        s[j].sample.t,
        env,
    ) < value(s[k].sample.t, env) by {
        assert(s[j].sample.t == Expr::Ratio((j + 1) as i64, n as u64));
        assert(s[k].sample.t == Expr::Ratio((k + 1) as i64, n as u64));
        let x = (j + 1) as real;
        let y = (k + 1) as real;
        assert(x / d < y / d) by (nonlinear_arith)
            requires
                x < y,
                d > 0real,
        ;
    }
}

/// The breaks at the centres of equal bands rise.
pub proof fn band_centres_rise(n: u32, i: int, j: int, env: Env)
    requires
        0 <= i < j < n,
    ensures
        value(ThetaBreaks::BandCentres(n).frac(i), env) < value(
            ThetaBreaks::BandCentres(n).frac(j),
            env,
        ),
        0real < value(ThetaBreaks::BandCentres(n).frac(i), env) < 1real,
{
    let x = (2 * i + 1) as real;
    let y = (2 * j + 1) as real;
    let d = (2 * n) as real;
    assert(x / d < y / d && 0real < x / d && x / d < 1real) by (nonlinear_arith)
        requires
            0real < x < y,
            y < d,
    ;
}

/// Whether no two breaks are one.
pub open spec fn distinct_breaks(b: ThetaBreaks) -> bool {
    match b {
        ThetaBreaks::BandCentres(_) => true,
        ThetaBreaks::At(v) => are_distinct(v@),
    }
}

/// Breaks of which no two are one rise, once they are in order.
pub proof fn sorted_breaks_rise(b: ThetaBreaks, i: int, j: int, env: Env)
    requires
        distinct_breaks(b),
        0 <= i < j < b.count(),
    ensures
        value(b.sorted_frac(i), env) < value(b.sorted_frac(j), env),
{
    match b {
        ThetaBreaks::BandCentres(n) => band_centres_rise(n, i, j, env),
        ThetaBreaks::At(v) => sorted_numbers_rise(v@, i, j),
    }
}

/// The bends of a chord come in the order in which the edge crosses the
/// breaks, whichever way it goes.
pub proof fn chord_bends_in_order(
    p: PolarProjection,
    from: Fractions,
    to: Fractions,
    rises: bool,
    env: Env,
    j: int,
    k: int,
)
    requires
        distinct_breaks(p.theta_break_fracs),
        rises ==> value(to.a, env) > value(from.a, env),
        !rises ==> value(to.a, env) < value(from.a, env),
        0 <= j < k < p.theta_break_fracs.count(),
    ensures
        value(p.chord_samples(from, to, rises)[j].sample.t, env) < value(
            p.chord_samples(from, to, rises)[k].sample.t,
            env,
        ),
{
    reveal_with_fuel(value, 3);
    let n = p.theta_break_fracs.count();
    let a = value(from.a, env);
    let d = value(to.a, env) - a;
    let x = if rises {
        j
    } else {
        n - 1 - j
    };
    let y = if rises {
        k
    } else {
        n - 1 - k
    };
    if rises {
        sorted_breaks_rise(p.theta_break_fracs, x, y, env);
    } else {
        sorted_breaks_rise(p.theta_break_fracs, y, x, env);
    }
    let u = value(p.theta_break_fracs.sorted_frac(x), env);
    let v = value(p.theta_break_fracs.sorted_frac(y), env);
    assert((u - a) / d < (v - a) / d) by (nonlinear_arith)
        requires
            d > 0real && u < v || d < 0real && v < u,
    ;
}

/// The places of those of the first `n` samples whose condition holds.
pub open spec fn shown_places(s: Seq<GuardedSample>, env: Env, n: nat) -> Seq<int>
    decreases n,
{
    if n == 0 {
        Seq::empty()
    } else {
        let before = shown_places(s, env, (n - 1) as nat);
        if holds(s[n - 1].when, env) {
            before.push(n - 1)
        } else {
            before
        }
    }
}

/// The samples that are there: those whose condition holds, in order.
pub open spec fn shown_samples(s: Seq<GuardedSample>, env: Env) -> Seq<InteriorSample> {
    let places = shown_places(s, env, s.len());
    Seq::new(places.len(), |k: int| s[places[k]].sample)
}

proof fn shown_places_rise(s: Seq<GuardedSample>, env: Env, n: nat)
    requires
        n <= s.len(),
    ensures
        ({
            let r = shown_places(s, env, n);
            &&& r.len() <= n
            &&& forall|k: int|
                0 <= k < r.len() ==> 0 <= (#[trigger] r[k]) < n && holds(s[r[k]].when, env)
            &&& forall|j: int, k: int|
                0 <= j < k < r.len() ==> (#[trigger] r[j]) < (#[trigger] r[k])
        }),
    decreases n,
{
    if n > 0 {
        shown_places_rise(s, env, (n - 1) as nat);
    }
}

proof fn edge_sample_is_inside(
    projection: Projection,
    from: Fractions,
    to: Fractions,
    facts: EdgeFacts,
    env: Env,
    k: int,
)
    requires
        ({
            let all = projection.samples_between(from, to, facts);
            0 <= k < all.len() && holds(all[k].when, env)
        }),
    ensures
        value(from.a, env) != value(to.a, env),
        ({
            let s = projection.samples_between(from, to, facts)[k].sample;
            0real < value(s.t, env) < 1real
        }),
{
    let a = value(from.a, env);
    let b = value(to.a, env);
    let p = projection->Polar_0;
    let all = projection.samples_between(from, to, facts);
    reveal_with_fuel(holds, 5);
    match p.edge_style {
        PolarEdgeStyle::Geodesic => {
            arc_steps_advance(p, from, to, steps_taken(facts.steps), env);
            assert(0real < value(all[k].sample.t, env) < 1real);
            let start = p.theta_start.value();
            let span = p.theta_end.value() - start;
            reveal_with_fuel(value, 6);
            assert(value(p.theta_at(from.a), env) == start + a * span);
            assert(value(p.theta_at(to.a), env) == start + b * span);
            assert(0real < 1real / 1_000_000_000real) by (nonlinear_arith);
        },
        PolarEdgeStyle::Chord => {
            let t = value(all[k].sample.t, env);
            reveal_with_fuel(value, 6);
            assert(0real < 1real / 1_000_000_000real) by (nonlinear_arith);
            assert(0real < 1real / 1_000_000_000_000real) by (nonlinear_arith);
            assert(1real / 1real == 1real);
        },
    }
}

/// The points between the ends of an edge lie strictly between them, each after
/// the one before, and each where the fractions as far along lead. There are
/// none where lines stay straight, and none on an edge that goes straight
/// outward.
pub proof fn edge_points_advance(
    projection: Projection,
    from: Fractions,
    to: Fractions,
    facts: EdgeFacts,
    env: Env,
)
    requires
        facts.rises == (value(to.a, env) > value(from.a, env)),
        projection matches Projection::Polar(p) ==> p.edge_style == PolarEdgeStyle::Chord
            ==> distinct_breaks(p.theta_break_fracs),
    ensures
        ({
            let s = shown_samples(projection.samples_between(from, to, facts), env);
            &&& projection is Cartesian ==> s.len() == 0
            &&& value(from.a, env) == value(to.a, env) ==> s.len() == 0
            &&& forall|k: int|
                #![trigger s[k]]
                0 <= k < s.len() ==> {
                    let at = projection.point_at(
                        e_along(from.a, to.a, s[k].t),
                        e_along(from.b, to.b, s[k].t),
                    );
                    &&& 0real < value(s[k].t, env) < 1real
                    &&& s[k].px == at.x && s[k].py == at.y
                }
            &&& forall|j: int, k: int|
                #![trigger s[j], s[k]]
                0 <= j < k < s.len() ==> value(s[j].t, env) < value(s[k].t, env)
        }),
{
    let all = projection.samples_between(from, to, facts);
    let places = shown_places(all, env, all.len());
    let s = shown_samples(all, env);
    shown_places_rise(all, env, all.len());
    if s.len() > 0 {
        edge_sample_is_inside(projection, from, to, facts, env, places[0]);
    }
    assert forall|k: int| #![trigger s[k]] 0 <= k < s.len() implies ({
        let at = projection.point_at(
            e_along(from.a, to.a, s[k].t),
            e_along(from.b, to.b, s[k].t),
        );
        &&& 0real < value(s[k].t, env) < 1real
        &&& s[k].px == at.x && s[k].py == at.y
    }) by {
        edge_sample_is_inside(projection, from, to, facts, env, places[k]);
    }
    assert forall|j: int, k: int| #![trigger s[j], s[k]] 0 <= j < k < s.len() implies value(
        s[j].t,
        env,
    ) < value(s[k].t, env) by {
        let p = projection->Polar_0;
        match p.edge_style {
            PolarEdgeStyle::Geodesic => {
                arc_steps_advance(p, from, to, steps_taken(facts.steps), env);
                assert(all[places[j]].sample.t == s[j].t);
                assert(all[places[k]].sample.t == s[k].t);
            },
            PolarEdgeStyle::Chord => {
                chord_bends_in_order(p, from, to, facts.rises, env, places[j], places[k]);
            },
        }
    }
}

/// How many of the first `n` breaks, in the order given, lie strictly between
/// two fractions, whichever is the larger.
pub open spec fn breaks_between(b: ThetaBreaks, x: real, y: real, n: nat, env: Env) -> nat
    decreases n,
{
    if n == 0 {
        0
    } else {
        let before = breaks_between(b, x, y, (n - 1) as nat, env);
        if is_between(value(b.frac(n - 1), env), x, y) {
            before + 1
        } else {
            before
        }
    }
}

/// Whether a fraction lies strictly between two others.
pub open spec fn is_between(f: real, x: real, y: real) -> bool {
    x < f < y || y < f < x
}

spec fn sorted_between(b: ThetaBreaks, x: real, y: real, n: nat, env: Env) -> nat
    decreases n,
{
    if n == 0 {
        0
    } else {
        let before = sorted_between(b, x, y, (n - 1) as nat, env);
        if is_between(value(b.sorted_frac(n - 1), env), x, y) {
            before + 1
        } else {
            before
        }
    }
}

proof fn counts_in_order(v: Seq<Num>, b: ThetaBreaks, x: real, y: real, n: nat, env: Env)
    requires
        b matches ThetaBreaks::At(w) && w@ == v,
        n <= v.len(),
    ensures
        breaks_between(b, x, y, n, env) == count_where(
            v.take(n as int),
            |f: Num| is_between(f.value(), x, y),
        ),
        sorted_between(b, x, y, n, env) == count_where(
            ascending(v).take(n as int),
            |f: Num| is_between(f.value(), x, y),
        ),
    decreases n,
{
    sorting_keeps_numbers(v);
    if n > 0 {
        counts_in_order(v, b, x, y, (n - 1) as nat, env);
        assert(v.take(n as int).drop_last() =~= v.take(n - 1));
        assert(ascending(v).take(n as int).drop_last() =~= ascending(v).take(n - 1));
    }
}

proof fn sorting_keeps_breaks(b: ThetaBreaks, x: real, y: real, n: nat, env: Env)
    requires
        n == b.count() || b is BandCentres,
    ensures
        sorted_between(b, x, y, n, env) == breaks_between(b, x, y, n, env),
    decreases n,
{
    match b {
        ThetaBreaks::BandCentres(_) => if n > 0 {
            sorting_keeps_breaks(b, x, y, (n - 1) as nat, env);
        },
        ThetaBreaks::At(v) => {
            let has = |f: Num| is_between(f.value(), x, y);
            counts_in_order(v@, b, x, y, n, env);
            sorting_keeps_numbers(v@);
            sorting_keeps_counts(v@, has);
            assert(v@.take(n as int) =~= v@);
            assert(ascending(v@).take(n as int) =~= ascending(v@));
        },
    }
}

/// How far along an edge a break lies.
pub open spec fn crossed_at(f: real, x: real, y: real) -> real {
    (f - x) / (y - x)
}

/// Whether a break lies so close to an end of an edge that it counts as that
/// end.
pub open spec fn is_at_end(f: real, x: real, y: real) -> bool {
    let margin = 1real / 1_000_000_000real;
    is_between(f, x, y) && !(margin < crossed_at(f, x, y) < 1real - margin)
}

proof fn crossing_is_between(
    p: PolarProjection,
    from: Fractions,
    to: Fractions,
    i: int,
    env: Env,
)
    requires
        ({
            let x = value(from.a, env);
            let y = value(to.a, env);
            let f = value(p.theta_break_fracs.sorted_frac(i), env);
            &&& x == y || real_abs(y - x) >= 1real / 1_000_000_000_000real
            &&& !is_at_end(f, x, y)
        }),
    ensures
        holds(p.c_crosses(from, to, i), env) == is_between(
            value(p.theta_break_fracs.sorted_frac(i), env),
            value(from.a, env),
            value(to.a, env),
        ),
{
    let x = value(from.a, env);
    let y = value(to.a, env);
    let f = value(p.theta_break_fracs.sorted_frac(i), env);
    let t = crossed_at(f, x, y);
    reveal_with_fuel(holds, 5);
    reveal_with_fuel(value, 6);
    let margin = 1real / 1_000_000_000real;
    assert(0real < margin) by (nonlinear_arith)
        requires
            margin == 1real / 1_000_000_000real,
    ;
    assert(1real / 1real == 1real);
    assert(value(p.crossing(from, to, i), env) == t);
    if x != y {
        let d = y - x;
        assert(0real < t && t < 1real ==> is_between(f, x, y)) by (nonlinear_arith)
            requires
                t == (f - x) / d,
                d == y - x,
                d != 0real,
        ;
    } else {
        assert(0real < 1real / 1_000_000_000_000real) by (nonlinear_arith);
    }
}

proof fn crossings_counted(
    p: PolarProjection,
    from: Fractions,
    to: Fractions,
    rises: bool,
    n: nat,
    env: Env,
)
    requires
        n <= p.theta_break_fracs.count(),
        value(from.a, env) == value(to.a, env) || real_abs(
            value(to.a, env) - value(from.a, env),
        ) >= 1real / 1_000_000_000_000real,
        forall|i: int|
            0 <= i < p.theta_break_fracs.count() ==> !is_at_end(
                value(#[trigger] p.theta_break_fracs.sorted_frac(i), env),
                value(from.a, env),
                value(to.a, env),
            ),
    ensures
        ({
            let b = p.theta_break_fracs;
            let x = value(from.a, env);
            let y = value(to.a, env);
            let all = p.chord_samples(from, to, rises);
            let c = b.count();
            shown_places(all, env, n).len() == (if rises {
                sorted_between(b, x, y, n, env) as int
            } else {
                sorted_between(b, x, y, c, env) - sorted_between(b, x, y, (c - n) as nat, env)
            })
        }),
    decreases n,
{
    if n > 0 {
        crossings_counted(p, from, to, rises, (n - 1) as nat, env);
        let c = p.theta_break_fracs.count();
        let i = if rises {
            n - 1
        } else {
            c - n
        };
        crossing_is_between(p, from, to, i, env);
        let all = p.chord_samples(from, to, rises);
        assert(all[n - 1].when == p.c_crosses(from, to, i));
        assert(((c - n) as nat + 1) as nat == (c - (n - 1)) as nat);
    }
}

/// An edge along chords bends once for each break strictly between its ends,
/// and nowhere else. Ends less than a trillionth apart count as one, and a break
/// within a billionth of an edge from its end counts as that end.
pub proof fn chords_bend_at_each_break(
    p: PolarProjection,
    from: Fractions,
    to: Fractions,
    facts: EdgeFacts,
    env: Env,
)
    requires
        p.edge_style == PolarEdgeStyle::Chord,
        value(from.a, env) == value(to.a, env) || real_abs(
            value(to.a, env) - value(from.a, env),
        ) >= 1real / 1_000_000_000_000real,
        forall|i: int|
            0 <= i < p.theta_break_fracs.count() ==> !is_at_end(
                value(#[trigger] p.theta_break_fracs.sorted_frac(i), env),
                value(from.a, env),
                value(to.a, env),
            ),
    ensures
        shown_samples(Projection::Polar(p).samples_between(from, to, facts), env).len()
            == breaks_between(
            p.theta_break_fracs,
            value(from.a, env),
            value(to.a, env),
            p.theta_break_fracs.count(),
            env,
        ),
{
    let c = p.theta_break_fracs.count();
    crossings_counted(p, from, to, facts.rises, c, env);
    sorting_keeps_breaks(p.theta_break_fracs, value(from.a, env), value(to.a, env), c, env);
}

/// Whole turns, up to two either way, do not matter to whether an angle lies
/// within a sweep: not even where the sweep has no length.
pub proof fn whole_turns_do_not_matter(target: Expr, start: Expr, end: Expr, k: i64, env: Env)
    requires
        -2 <= k <= 2,
        ({
            let t = value(target, env);
            let a = value(start, env);
            let b = value(end, env);
            a <= t <= b || b <= t <= a
        }),
    ensures
        holds(c_in_sweep(taken_round(target, k), start, end), env),
{
    let t = value(target, env);
    let a = value(start, env);
    let b = value(end, env);
    let turn = (Num { bits: FULL_TURN }).value();
    let back = (-k) as i64;
    let span = e_sub(end, start);
    let again = taken_round(taken_round(target, k), back);
    let along = e_sub(again, start);
    assert(value(e_int(k), env) == k as real && value(e_int(back), env) == back as real) by {
        assert((k as real) / 1real == k as real);
        assert((back as real) / 1real == back as real);
    }
    let round = Expr::Lit(Num { bits: FULL_TURN });
    assert(value(round, env) == turn);
    assert(value(e_mul(e_int(k), round), env) == (k as real) * turn);
    assert(value(e_mul(e_int(back), round), env) == (back as real) * turn);
    assert(value(taken_round(target, k), env) == t + (k as real) * turn);
    assert(value(again, env) == t + (k as real) * turn + (back as real) * turn);
    assert((k as real) * turn + (back as real) * turn == 0real) by (nonlinear_arith)
        requires
            back as real == 0real - (k as real),
    ;
    assert(value(along, env) == t - a);
    assert(value(span, env) == b - a);
    let narrow = c_within(span, 1_000_000_000_000);
    let f = e_div(along, span);
    assert(value(f, env) == (t - a) / (b - a));
    assert(value(e_int(0), env) == 0real && value(e_int(1), env) == 1real) by {
        assert(0real / 1real == 0real && 1real / 1real == 1real);
    }
    let by = c_in_sweep_by(taken_round(target, k), start, span, back);
    let wide = 1real / 1_000_000_000real;
    let fine = 1real / 1_000_000_000_000real;
    assert(0real < fine && fine < wide) by (nonlinear_arith)
        requires
            wide == 1real / 1_000_000_000real,
            fine == 1real / 1_000_000_000_000real,
    ;
    reveal_with_fuel(holds, 5);
    assert(holds(narrow, env) == (real_abs(b - a) < fine));
    assert(holds(c_within(along, 1_000_000_000), env) == (real_abs(t - a) < wide));
    if real_abs(b - a) >= fine {
        let d = b - a;
        let q = (t - a) / d;
        assert(0real <= q <= 1real) by (nonlinear_arith)
            requires
                q == (t - a) / d,
                d != 0real,
                0real <= t - a <= d || d <= t - a <= 0real,
        ;
    }
    assert(holds(by, env));
    let turned = taken_round(target, k);
    let c4 = c_in_sweep_by(turned, start, span, 2);
    let c3 = c_or(c_in_sweep_by(turned, start, span, 1), c4);
    let c2 = c_or(c_in_sweep_by(turned, start, span, 0), c3);
    let c1 = c_or(c_in_sweep_by(turned, start, span, (-1int) as i64), c2);
    assert(back >= 1 ==> holds(c3, env));
    assert(back >= 0 ==> holds(c2, env));
    assert(back >= -1 ==> holds(c1, env));
}

/// Two disks that both keep to the middle of the panel nest: one that ends
/// where the hole of the other begins shares its centre and meets its edge.
pub proof fn nested_disks_meet(outer: PolarProjection, inner: PolarProjection, env: Env)
    requires
        !outer.fit_to_bbox,
        !inner.fit_to_bbox,
        outer.outer_radius_frac is None,
        inner.outer_radius_frac == Some(outer.inner_radius_frac),
    ensures
        inner.geometry_of().cx == outer.geometry_of().cx,
        inner.geometry_of().cy == outer.geometry_of().cy,
        value(inner.geometry_of().r_outer, env) == value(outer.geometry_of().r_inner, env),
{
    reveal_with_fuel(value, 8);
    let o = outer.natural_geometry();
    let i = inner.natural_geometry();
    let m = e_mul(
        e_min(e_max(e_panel_w(), e_int(0)), e_max(e_panel_h(), e_int(0))),
        e_half(),
    );
    assert(o.r_outer == e_mul(m, e_int(1)));
    assert(o.r_inner == e_mul(o.r_outer, Expr::Lit(outer.inner_radius_frac)));
    assert(i.r_outer == e_mul(m, Expr::Lit(outer.inner_radius_frac)));
    let mv = value(m, env);
    assert(value(e_int(1), env) == 1real) by {
        assert(1real / 1real == 1real);
    }
    assert(value(o.r_outer, env) == mv * 1real);
    assert(mv * 1real == mv) by (nonlinear_arith);
    assert(value(o.r_inner, env) == mv * outer.inner_radius_frac.value());
    assert(value(i.r_outer, env) == mv * outer.inner_radius_frac.value());
}

} // verus!
