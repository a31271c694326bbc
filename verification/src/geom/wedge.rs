//! Slices of a disk, or of a ring, one for each row.
//!
//! The centre is placed by `x` and `y`, like any point. The slice is given by
//! `radius` and `radius2` (points), `radius_band` and `radius2_band` (fractions
//! of the band that the centre lies in), and `theta` and `theta2` (radians,
//! counter to the clock from the right). Both sizes add up:
//!
//! ```text
//! radius in pixels = radius in points, in pixels + radius_band * band
//! ```
//!
//! where the band is the smaller of the two that the centre lies in, in pixels,
//! and a continuous scale has none.

use vstd::prelude::*;

use crate::channel::{CatalogEntry, Channel, ChannelDecl, ExpectedOutput, Keys};
use crate::expr::{
    c_and, c_eq, c_finite, c_finite_positive, c_not, c_panel_open, c_positive, e_add, e_clamp,
    e_int, e_min, e_mul, e_neg, e_panel_h, e_panel_w, e_px, e_select, e_sub, holds, value, Cond,
    Env, Expr, Quantity,
};
use crate::geom::builder::GeomBuilder;
use crate::geom::error::{BuildError, BuildFault};
use crate::geom::place::{fractions_at, fractions_of, moved, offset_point, start_names};
use crate::geom::state::{
    build_fault, buildable, declares, finalize_state, freshly_built, has_x_and, keys_built,
    require_x_and_siblings, x_and_fault, GeomState, KeysStrategy,
};
use crate::num::Num;
use crate::pick::PickId;
use crate::projection::{Projection, FULL_TURN, ONE};
use crate::resolve::{cap_named, join_named, pick_for, Bound, ScaleOutputs, Source};
use crate::scene::{Cap, Join, Op, Paint, Path, Pen, Point, Step, Xform};
use crate::value::DataColumn;

verus! {

/// The channels that the geom reads.
pub open spec fn catalog() -> Seq<CatalogEntry> {
    seq![
        ("x", ExpectedOutput::Numbers),
        ("y", ExpectedOutput::Numbers),
        ("x_offset", ExpectedOutput::Numbers),
        ("y_offset", ExpectedOutput::Numbers),
        ("x_band", ExpectedOutput::Numbers),
        ("y_band", ExpectedOutput::Numbers),
        ("radius", ExpectedOutput::Numbers),
        ("radius2", ExpectedOutput::Numbers),
        ("radius_band", ExpectedOutput::Numbers),
        ("radius2_band", ExpectedOutput::Numbers),
        ("theta", ExpectedOutput::Numbers),
        ("theta2", ExpectedOutput::Numbers),
        ("fill", ExpectedOutput::Colors),
        ("stroke", ExpectedOutput::Colors),
        ("fill_opacity", ExpectedOutput::Numbers),
        ("stroke_opacity", ExpectedOutput::Numbers),
        ("linewidth", ExpectedOutput::Numbers),
        ("linetype", ExpectedOutput::Linetypes),
        ("dash_offset", ExpectedOutput::Numbers),
        ("cap", ExpectedOutput::Strings),
        ("join", ExpectedOutput::Strings),
        ("pick_id", ExpectedOutput::Numbers),
    ]
}

fn catalog_entries() -> (r: Vec<CatalogEntry>)
    ensures
        r@ == catalog(),
{
    let r: Vec<CatalogEntry> = vec![
        ("x", ExpectedOutput::Numbers),
        ("y", ExpectedOutput::Numbers),
        ("x_offset", ExpectedOutput::Numbers),
        ("y_offset", ExpectedOutput::Numbers),
        ("x_band", ExpectedOutput::Numbers),
        ("y_band", ExpectedOutput::Numbers),
        ("radius", ExpectedOutput::Numbers),
        ("radius2", ExpectedOutput::Numbers),
        ("radius_band", ExpectedOutput::Numbers),
        ("radius2_band", ExpectedOutput::Numbers),
        ("theta", ExpectedOutput::Numbers),
        ("theta2", ExpectedOutput::Numbers),
        ("fill", ExpectedOutput::Colors),
        ("stroke", ExpectedOutput::Colors),
        ("fill_opacity", ExpectedOutput::Numbers),
        ("stroke_opacity", ExpectedOutput::Numbers),
        ("linewidth", ExpectedOutput::Numbers),
        ("linetype", ExpectedOutput::Linetypes),
        ("dash_offset", ExpectedOutput::Numbers),
        ("cap", ExpectedOutput::Strings),
        ("join", ExpectedOutput::Strings),
        ("pick_id", ExpectedOutput::Numbers),
    ];
    assert(r@ =~= catalog());
    r
}

/// The columns that have to be as long as `x`.
pub open spec fn required() -> Seq<&'static str> {
    seq!["y"]
}

/// How many rows the channels have.
pub open spec fn rows_of(channels: Map<Seq<char>, Channel>) -> nat {
    channels["x"@].column()->0.count()
}

/// Whether a geom of `n` rows can be built from these channels.
pub open spec fn can_build(
    keys: Option<DataColumn>,
    channels: Map<Seq<char>, Channel>,
    n: nat,
) -> bool {
    &&& has_x_and(channels, required(), n)
    &&& buildable(keys, channels, n, catalog())
}

/// Whether no geom can be built, and `e` says why.
pub open spec fn rejected(
    keys: Option<DataColumn>,
    channels: Map<Seq<char>, Channel>,
    e: BuildFault,
) -> bool {
    &&& !can_build(keys, channels, rows_of(channels))
    &&& if !has_x_and(channels, required(), rows_of(channels)) {
        x_and_fault(channels, required(), "WedgeGeom"@, e)
    } else {
        build_fault(keys, channels, rows_of(channels), catalog(), "WedgeGeom"@, e)
    }
}

/// Slices of a disk or a ring, one for each row.
pub struct WedgeGeom {
    /// The keys, channels and frame history.
    pub state: GeomState,
}

impl WedgeGeom {
    /// Builds the geom.
    pub fn build_from(builder: GeomBuilder) -> (r: Result<WedgeGeom, BuildError>)
        ensures
            match r {
                Ok(g) => {
                    &&& can_build(builder.keys, builder.channels@, g.state.keys.count())
                    &&& freshly_built(
                        g.state,
                        builder.keys,
                        builder.channels@,
                        g.state.keys.count(),
                        KeysStrategy::PerRow,
                        g.state.declared@,
                    )
                    &&& declares(g.state.declared@, builder.channels@, catalog())
                    &&& g.state.wf()
                },
                Err(e) => rejected(builder.keys, builder.channels@, e@),
            },
    {
        let (keys_opt, channels) = builder.into_parts();
        let siblings = ["y"];
        assert(siblings@ =~= required());
        let n: usize = match require_x_and_siblings(&channels, &siblings, "WedgeGeom") {
            Ok(n) => n,
            Err(e) => return Err(e),
        };
        let entries = catalog_entries();
        match finalize_state(
            keys_opt,
            channels,
            n,
            KeysStrategy::PerRow,
            entries.as_slice(),
            "WedgeGeom",
        ) {
            Ok(state) => Ok(WedgeGeom { state }),
            Err(e) => Err(e),
        }
    }
}

impl WedgeGeom {
    /// Nothing to build from yet.
    pub fn builder() -> (r: GeomBuilder)
        ensures
            r.keys is None,
            r.channels@ == Map::<Seq<char>, Channel>::empty(),
    {
        GeomBuilder::new()
    }

    /// How many rows there are.
    pub fn len(&self) -> (r: usize)
        ensures
            r == self.state.keys.count(),
    {
        self.state.len()
    }

    /// Whether there is no row.
    pub fn is_empty(&self) -> (r: bool)
        ensures
            r == (self.state.keys.count() == 0),
    {
        self.state.is_empty()
    }

    /// Whether a key column was supplied.
    pub fn has_explicit_keys(&self) -> (r: bool)
        ensures
            r == (self.state.keys is Explicit),
    {
        self.state.keys.is_explicit()
    }

    /// The channels that the geom declares, by name.
    pub fn declared_channels(&self) -> (r: &Vec<ChannelDecl>)
        ensures
            *r == self.state.declared,
    {
        &self.state.declared
    }

    /// Replaces one channel. See [`GeomState::set`].
    pub fn set(&mut self, name: &str, value: Channel) -> (r: Result<(), BuildError>)
        ensures
            match r {
                Ok(_) => {
                    &&& value.column() is Some ==> value.column()->0.count()
                        == old(self).state.keys.count()
                    &&& final(self).state.channels@ == old(self).state.channels@.insert(name@, value)
                    &&& final(self).state.dirty
                    &&& final(self).state.same_but_channels(old(self).state)
                },
                Err(e) => {
                    &&& value.column() is Some
                    &&& value.column()->0.count() != old(self).state.keys.count()
                    &&& e@ == (BuildFault::SetLength {
                        name: name@,
                        len: value.column()->0.count(),
                        rows: old(self).state.keys.count(),
                    })
                    &&& final(self).state == old(self).state
                },
            },
            old(self).state.wf() ==> final(self).state.wf(),
    {
        self.state.set(name.to_owned(), value)
    }

    /// What the geom would be built from again: the start of an update.
    pub fn edit(&self) -> (r: GeomBuilder)
        ensures
            r.channels@ == self.state.channels@,
            match self.state.keys {
                Keys::Explicit(c) => r.keys == Some(c),
                Keys::Positional(_) => r.keys is None,
            },
    {
        GeomBuilder::from_state(&self.state)
    }

    /// Replaces the whole frame by what `builder` makes of it, and makes the
    /// current frame the one before. A frame that cannot be built changes
    /// nothing.
    pub fn update(&mut self, builder: GeomBuilder) -> (r: Result<(), BuildError>)
        ensures
            match r {
                Ok(_) => {
                    &&& can_build(builder.keys, builder.channels@, final(self).state.keys.count())
                    &&& final(self).state.prev_keys == old(self).state.keys
                    &&& final(self).state.prev_channels == old(self).state.channels
                    &&& final(self).state.channels@ == builder.channels@
                    &&& keys_built(
                        final(self).state.keys,
                        builder.keys,
                        final(self).state.keys.count(),
                        KeysStrategy::PerRow,
                    )
                    &&& declares(final(self).state.declared@, builder.channels@, catalog())
                    &&& final(self).state.dirty
                    &&& final(self).state.wf()
                },
                Err(e) => rejected(builder.keys, builder.channels@, e@) && *final(self) == *old(
                    self,
                ),
            },
    {
        match Self::build_from(builder) {
            Ok(new) => {
                self.state.replace_current_with(new.state);
                Ok(())
            },
            Err(e) => Err(e),
        }
    }
}

/// The smaller of two quantities of which neither counts unless it is above
/// zero.
pub open spec fn e_smallest_nonzero(a: Expr, b: Expr) -> Expr {
    e_select(
        c_positive(a),
        e_select(c_positive(b), e_min(a, b), a),
        e_select(c_positive(b), b, e_int(0)),
    )
}

/// The band that row `i` lies in, in pixels.
pub open spec fn band_px(src: Source, i: int) -> Expr {
    e_smallest_nonzero(
        e_mul(Expr::Lit(src.band_width("x"@, i)), e_panel_w()),
        e_mul(Expr::Lit(src.band_width("y"@, i)), e_panel_h()),
    )
}

/// A radius in pixels: points and bands together.
pub open spec fn radius_px(src: Source, points: Seq<char>, bands: Seq<char>, i: int) -> Expr {
    e_add(
        e_px(Expr::Lit(src.number_or(points, i, Num { bits: 0 }))),
        e_mul(Expr::Lit(src.number_or(bands, i, Num { bits: 0 })), band_px(src, i)),
    )
}

/// The inner radius in pixels, no larger than the outer one.
pub open spec fn inner_px(src: Source, i: int) -> Expr {
    e_clamp(
        radius_px(src, "radius2"@, "radius2_band"@, i),
        e_int(0),
        radius_px(src, "radius"@, "radius_band"@, i),
    )
}

/// Where the slice of row `i` starts.
pub open spec fn theta_of(src: Source, i: int) -> Num {
    src.number_or("theta"@, i, Num { bits: 0 })
}

/// Where the slice of row `i` ends.
pub open spec fn theta2_of(src: Source, i: int) -> Num {
    src.number_or("theta2"@, i, Num { bits: FULL_TURN })
}

/// How far the slice of row `i` goes round. Pixels run downwards, so it goes
/// the other way round than its angles say.
pub open spec fn sweep_of(src: Source, i: int) -> Expr {
    e_neg(e_sub(Expr::Lit(theta2_of(src, i)), Expr::Lit(theta_of(src, i))))
}

/// The centre of row `i`.
pub open spec fn centre_of(src: Source, i: int) -> Point {
    let f = fractions_at(src, "x"@, "y"@, "x_band"@, "y_band"@, i);
    moved(src, Projection::Cartesian.point_at(f.a, f.b), "x_offset"@, "y_offset"@, i)
}

/// When the slice of row `i` is drawn.
pub open spec fn c_drawn(src: Source, i: int) -> Cond {
    let f = fractions_at(src, "x"@, "y"@, "x_band"@, "y_band"@, i);
    c_and(
        c_panel_open(),
        c_and(
            c_and(c_finite(f.a), c_finite(f.b)),
            c_and(
                c_finite_positive(radius_px(src, "radius"@, "radius_band"@, i)),
                c_not(c_eq(sweep_of(src, i), e_int(0))),
            ),
        ),
    )
}

/// The slice of row `i` as a slice of a disk.
pub open spec fn disk_slice(src: Source, i: int) -> Path {
    Path::Wedge {
        centre: centre_of(src, i),
        radius: radius_px(src, "radius"@, "radius_band"@, i),
        start: e_neg(Expr::Lit(theta_of(src, i))),
        sweep: sweep_of(src, i),
    }
}

/// The slice of row `i` as a slice of a ring.
pub open spec fn ring_slice(src: Source, i: int) -> Path {
    Path::AnnularWedge {
        centre: centre_of(src, i),
        inner: inner_px(src, i),
        outer: radius_px(src, "radius"@, "radius_band"@, i),
        start: e_neg(Expr::Lit(theta_of(src, i))),
        sweep: sweep_of(src, i),
    }
}

/// What row `i` is filled with.
pub open spec fn fill_of(src: Source, i: int) -> Option<Paint> {
    src.paint_of(src.color_at("fill"@, i), "fill_opacity"@, i)
}

/// What row `i` is stroked with.
pub open spec fn stroke_of(src: Source, i: int) -> Option<Paint> {
    src.paint_of(src.color_at("stroke"@, i), "stroke_opacity"@, i)
}

/// The pen of row `i`.
pub open spec fn pen_of(src: Source, i: int) -> Pen {
    Pen {
        width: e_px(Expr::Lit(src.number_or("linewidth"@, i, Num { bits: ONE }))),
        cap: cap_named(src.string_at("cap"@, i), Cap::Butt),
        join: join_named(src.string_at("join"@, i), Join::Miter),
        pattern: src.linetype_at("linetype"@, i),
        dash_offset: e_px(Expr::Lit(src.number_or("dash_offset"@, i, Num { bits: 0 }))),
    }
}

/// The steps that fill row `i`: a slice of a ring where the ring has a hole,
/// else of a disk.
pub open spec fn fill_steps(src: Source, i: int) -> Seq<Step> {
    match fill_of(src, i) {
        Some(paint) => {
            let pick = pick_for(src.number_at("pick_id"@, i));
            seq![
                Step {
                    when: c_and(c_drawn(src, i), c_positive(inner_px(src, i))),
                    op: Op::Fill { path: ring_slice(src, i), xform: Xform::Identity, paint, pick },
                },
                Step {
                    when: c_and(c_drawn(src, i), c_not(c_positive(inner_px(src, i)))),
                    op: Op::Fill { path: disk_slice(src, i), xform: Xform::Identity, paint, pick },
                },
            ]
        },
        None => Seq::empty(),
    }
}

/// The steps that stroke row `i`, where its line has any width.
pub open spec fn stroke_steps(src: Source, i: int) -> Seq<Step> {
    match stroke_of(src, i) {
        Some(paint) => {
            let pick = pick_for(src.number_at("pick_id"@, i));
            let pen = pen_of(src, i);
            let drawn = c_and(c_drawn(src, i), c_finite_positive(pen.width));
            seq![
                Step {
                    when: c_and(drawn, c_positive(inner_px(src, i))),
                    op: Op::Stroke {
                        path: ring_slice(src, i),
                        pen,
                        xform: Xform::Identity,
                        paint,
                        pick,
                    },
                },
                Step {
                    when: c_and(drawn, c_not(c_positive(inner_px(src, i)))),
                    op: Op::Stroke {
                        path: disk_slice(src, i),
                        pen,
                        xform: Xform::Identity,
                        paint,
                        pick,
                    },
                },
            ]
        },
        None => Seq::empty(),
    }
}

/// What is drawn for row `i`: its fill, then its stroke. Angles that are not
/// finite draw nothing.
pub open spec fn row_steps(src: Source, i: int) -> Seq<Step> {
    if theta_of(src, i).finite() && theta2_of(src, i).finite() {
        fill_steps(src, i) + stroke_steps(src, i)
    } else {
        Seq::empty()
    }
}

/// What is drawn for the first `n` rows.
pub open spec fn steps_of(src: Source, n: nat) -> Seq<Step>
    decreases n,
{
    if n == 0 {
        Seq::empty()
    } else {
        steps_of(src, (n - 1) as nat) + row_steps(src, n - 1)
    }
}

/// Whether the centres can be placed: both channels go through their scales.
pub open spec fn is_placed(src: Source) -> bool {
    &&& src.channels.contains_key("x"@) && src.channels["x"@] is Data
    &&& src.channels.contains_key("y"@) && src.channels["y"@] is Data
}

fn smallest_nonzero(a: Expr, b: Expr) -> (r: Expr)
    ensures
        r == e_smallest_nonzero(a, b),
{
    let pa = a.is_positive();
    let pb = b.is_positive();
    let both = Expr::select(pb.again(), a.again().at_most(b.again()), a);
    let second = Expr::select(pb, b, Expr::Ratio(0, 1));
    Expr::select(pa, both, second)
}

fn radius_in_px(src: &Bound, points: &str, bands: &str, i: usize, band: &Expr) -> (r: Expr)
    requires
        *band == band_px(src@, i as int),
    ensures
        r == radius_px(src@, points@, bands@, i as int),
{
    let pt: Num = src.number_or(points, i, Num { bits: 0 });
    let frac: Num = src.number_or(bands, i, Num { bits: 0 });
    Expr::Lit(pt).in_px().plus(Expr::Lit(frac).times(band.again()))
}

fn pen_for(src: &Bound, i: usize) -> (r: Pen)
    ensures
        r == pen_of(src@, i as int),
{
    Pen {
        width: Expr::Lit(src.number_or("linewidth", i, Num { bits: ONE })).in_px(),
        cap: src.cap_or("cap", i, Cap::Butt),
        join: src.join_or("join", i, Join::Miter),
        pattern: src.linetype_at("linetype", i),
        dash_offset: Expr::Lit(src.number_or("dash_offset", i, Num { bits: 0 })).in_px(),
    }
}

fn plan_row(src: &Bound, i: usize, out: &mut Vec<Step>)
    requires
        is_placed(src@),
    ensures
        final(out)@ == old(out)@ + row_steps(src@, i as int),
{
    let theta: Num = src.number_or("theta", i, Num { bits: 0 });
    let theta2: Num = src.number_or("theta2", i, Num { bits: FULL_TURN });
    if !theta.is_finite() || !theta2.is_finite() {
        assert(out@ =~= old(out)@ + row_steps(src@, i as int));
        return;
    }
    let names = start_names();
    let f = fractions_of(src, &names, i);
    let centre = offset_point(src, Projection::Cartesian.project(&f.a, &f.b), &names, i);
    let band = smallest_nonzero(
        Expr::Lit(src.band_width("x", i)).times(Expr::panel_w()),
        Expr::Lit(src.band_width("y", i)).times(Expr::panel_h()),
    );
    let outer = radius_in_px(src, "radius", "radius_band", i, &band);
    let inner = radius_in_px(src, "radius2", "radius2_band", i, &band).kept_between(
        Expr::Ratio(0, 1),
        outer.again(),
    );
    let start = Expr::Lit(theta).negated();
    let sweep = Expr::Lit(theta2).minus(Expr::Lit(theta)).negated();
    let drawn = Cond::panel_open().and(
        f.a.is_finite().and(f.b.is_finite()).and(
            outer.is_finite_positive().and(
                Cond::equal(sweep.again(), Expr::Ratio(0, 1)).negated(),
            ),
        ),
    );
    let ring = Path::AnnularWedge {
        centre: centre.again(),
        inner: inner.again(),
        outer: outer.again(),
        start: start.again(),
        sweep: sweep.again(),
    };
    let disk = Path::Wedge { centre, radius: outer, start, sweep };
    let hole = inner.is_positive();
    let pick: PickId = src.pick_at("pick_id", i);
    let ghost before = out@;
    if let Some(paint) = src.paint_of(src.color_at("fill", i), "fill_opacity", i) {
        out.push(
            Step {
                when: drawn.again().and(hole.again()),
                op: Op::Fill { path: ring.again(), xform: Xform::Identity, paint, pick },
            },
        );
        out.push(
            Step {
                when: drawn.again().and(hole.again().negated()),
                op: Op::Fill { path: disk.again(), xform: Xform::Identity, paint, pick },
            },
        );
    }
    assert(out@ =~= before + fill_steps(src@, i as int));
    if let Some(paint) = src.paint_of(src.color_at("stroke", i), "stroke_opacity", i) {
        let pen = pen_for(src, i);
        let stroked = drawn.and(pen.width.is_finite_positive());
        out.push(
            Step {
                when: stroked.again().and(hole.again()),
                op: Op::Stroke {
                    path: ring,
                    pen: pen.again(),
                    xform: Xform::Identity,
                    paint,
                    pick,
                },
            },
        );
        out.push(
            Step {
                when: stroked.and(hole.negated()),
                op: Op::Stroke { path: disk, pen, xform: Xform::Identity, paint, pick },
            },
        );
    }
    assert(out@ =~= before + (fill_steps(src@, i as int) + stroke_steps(src@, i as int)));
}

impl WedgeGeom {
    /// What is drawn.
    pub fn draw(&self, scales: &ScaleOutputs) -> (r: Vec<Step>)
        ensures
            ({
                let src = Source {
                    channels: self.state.channels@,
                    values: scales.values@,
                    positions: scales.positions@,
                };
                &&& is_placed(src) ==> r@ == steps_of(src, self.state.keys.count())
                &&& !is_placed(src) ==> r@.len() == 0
            }),
    {
        let src = Bound { channels: &self.state.channels, scales };
        let mut out: Vec<Step> = Vec::new();
        match src.channels.get("x") {
            Some(Channel::Data(_)) => {},
            _ => return out,
        }
        match src.channels.get("y") {
            Some(Channel::Data(_)) => {},
            _ => return out,
        }
        let n: usize = self.len();
        let mut i: usize = 0;
        while i < n
            invariant
                i <= n,
                is_placed(src@),
                out@ == steps_of(src@, i as nat),
            decreases n - i,
        {
            plan_row(&src, i, &mut out);
            i = i + 1;
        }
        out
    }
}

/// The inner radius lies between nought and the outer one wherever the slice is
/// drawn.
pub proof fn inner_radius_fits(src: Source, i: int, env: Env)
    requires
        holds(c_drawn(src, i), env),
    ensures
        0real <= value(inner_px(src, i), env) <= value(
            radius_px(src, "radius"@, "radius_band"@, i),
            env,
        ),
{
    let outer = radius_px(src, "radius"@, "radius_band"@, i);
    reveal_with_fuel(holds, 6);
    assert(holds(c_finite_positive(outer), env));
    assert(value(e_int(0), env) == 0real) by {
        assert(0real / 1real == 0real);
    }
    assert(value(outer, env) > 0real);
}

/// Of the two ways to fill a row exactly one is taken where the slice is drawn,
/// and none elsewhere.
pub proof fn one_fill_for_each_slice(src: Source, i: int, env: Env)
    requires
        fill_of(src, i) is Some,
    ensures
        ({
            let s = fill_steps(src, i);
            &&& s.len() == 2
            &&& holds(c_drawn(src, i), env) ==> (holds(s[0].when, env) != holds(s[1].when, env))
            &&& !holds(c_drawn(src, i), env) ==> !holds(s[0].when, env) && !holds(s[1].when, env)
        }),
{
    let drawn = c_drawn(src, i);
    let hole = c_positive(inner_px(src, i));
    assert(holds(c_and(drawn, hole), env) == (holds(drawn, env) && holds(hole, env)));
    assert(holds(c_not(hole), env) == !holds(hole, env));
    assert(holds(c_and(drawn, c_not(hole)), env) == (holds(drawn, env) && holds(
        c_not(hole),
        env,
    )));
}

/// Points and bands add up to the radius.
pub proof fn radius_adds_up(src: Source, points: Seq<char>, bands: Seq<char>, i: int, env: Env)
    ensures
        value(radius_px(src, points, bands, i), env) == src.number_or(
            points,
            i,
            Num { bits: 0 },
        ).value() * (env.var)(Quantity::Dpi) / 72real + src.number_or(
            bands,
            i,
            Num { bits: 0 },
        ).value() * value(band_px(src, i), env),
{
    let pt = Expr::Lit(src.number_or(points, i, Num { bits: 0 }));
    let fr = Expr::Lit(src.number_or(bands, i, Num { bits: 0 }));
    crate::expr::points_in_pixels(pt, env);
    assert(value(pt, env) == src.number_or(points, i, Num { bits: 0 }).value());
    assert(value(e_mul(fr, band_px(src, i)), env) == value(fr, env) * value(band_px(src, i), env));
}

/// Without a band on either side the bands add nothing.
pub proof fn no_band_no_radius(src: Source, i: int, env: Env)
    requires
        src.band_width("x"@, i).value() == 0real,
        src.band_width("y"@, i).value() == 0real,
    ensures
        value(band_px(src, i), env) == 0real,
{
    let xb = Expr::Lit(src.band_width("x"@, i));
    let yb = Expr::Lit(src.band_width("y"@, i));
    let a = e_mul(xb, e_panel_w());
    let b = e_mul(yb, e_panel_h());
    let w = value(e_panel_w(), env);
    let h = value(e_panel_h(), env);
    assert(0real * w == 0real && 0real * h == 0real) by (nonlinear_arith);
    assert(value(a, env) == value(xb, env) * w);
    assert(value(b, env) == value(yb, env) * h);
    assert(value(e_int(0), env) == 0real) by {
        assert(0real / 1real == 0real);
    }
    assert(!holds(c_positive(a), env));
    assert(!holds(c_positive(b), env));
    assert(value(e_select(c_positive(b), b, e_int(0)), env) == 0real);
}

} // verus!
