//! How a plot keeps its units in proportion.

use vstd::prelude::*;

use crate::expr::{
    c_and, c_finite, c_ge, c_gt, c_not, c_positive, e_add, e_div, e_half, e_int, e_max, e_mul,
    e_panel_h, e_panel_w, e_select, e_sub, holds, real_max, value, Cond, Env, Expr,
};
use crate::names::NameMap;
use crate::num::Num;
use crate::projection::Extent;

verus! {

/// How the proportion of a plot is kept.
#[derive(Clone, Copy, Debug, PartialEq, Eq, Structural)]
pub enum AspectMode {
    /// The panel takes the shape that the proportion asks for.
    Panel,
    /// The panel takes whatever room there is, and the proportion is kept inside
    /// it: by a wider range of one scale, or by a disk in its middle.
    Range,
}

impl Default for AspectMode {
    fn default() -> (r: AspectMode)
        ensures
            r == AspectMode::Panel,
    {
        AspectMode::Panel
    }
}

/// The range of a continuous scale, as the panel shows it: after the scale's
/// transform.
#[derive(Clone, Copy, Debug, PartialEq, Eq, Structural)]
pub struct ScaleRange {
    /// Where the range starts.
    pub lo: Num,
    /// Where the range ends.
    pub hi: Num,
    /// Where the transform starts to make sense.
    pub bound_lo: Num,
    /// Where the transform ceases to make sense.
    pub bound_hi: Num,
}

/// A scale, as far as a plot has to know it.
#[derive(Clone, Copy, Debug, PartialEq, Eq, Structural)]
pub enum Scale {
    /// A continuous one.
    Continuous(ScaleRange),
    /// Any other, which has no extent.
    Other,
}

/// The scales that plots share, by name.
pub struct ScaleRegistry {
    /// The scales.
    pub scales: NameMap<Scale>,
}

impl ScaleRegistry {
    /// No scales.
    pub fn new() -> (r: ScaleRegistry)
        ensures
            r.scales@ == Map::<Seq<char>, Scale>::empty(),
    {
        ScaleRegistry { scales: NameMap::new() }
    }

    /// Puts a scale under a name.
    pub fn insert(&mut self, name: &str, scale: Scale)
        ensures
            final(self).scales@ == old(self).scales@.insert(name@, scale),
    {
        self.scales.insert(name.to_owned(), scale);
    }

    /// The scale under a name.
    pub fn get(&self, name: &str) -> (r: Option<&Scale>)
        ensures
            match r {
                Some(s) => self.scales@.contains_key(name@) && *s == self.scales@[name@],
                None => !self.scales@.contains_key(name@),
            },
    {
        self.scales.get(name)
    }
}

/// The range of the scale under a name; none where there is no such scale, or
/// where it is not continuous.
pub open spec fn range_named(scales: Map<Seq<char>, Scale>, name: Seq<char>) -> Option<ScaleRange> {
    if scales.contains_key(name) {
        match scales[name] {
            Scale::Continuous(r) => Some(r),
            Scale::Other => None,
        }
    } else {
        None
    }
}

/// The range of the scale that a channel is bound to.
pub open spec fn range_of(
    bindings: Map<Seq<char>, String>,
    scales: Map<Seq<char>, Scale>,
    channel: Seq<char>,
) -> Option<ScaleRange> {
    if bindings.contains_key(channel) {
        range_named(scales, bindings[channel]@)
    } else {
        None
    }
}

/// The range of the scale that a channel is bound to.
pub fn bound_range(bindings: &NameMap<String>, registry: &ScaleRegistry, channel: &str) -> (r: Option<
    ScaleRange,
>)
    ensures
        r == range_of(bindings@, registry.scales@, channel@),
{
    match bindings.get(channel) {
        Some(name) => match registry.get(name.as_str()) {
            Some(Scale::Continuous(r)) => Some(*r),
            _ => None,
        },
        None => None,
    }
}

/// How far a range goes.
pub open spec fn extent_of(r: ScaleRange) -> Expr {
    e_sub(Expr::Lit(r.hi), Expr::Lit(r.lo))
}

/// A shape that a panel is to take.
#[derive(Debug)]
pub struct PanelAspect {
    /// Its width.
    pub width: Expr,
    /// Its height.
    pub height: Expr,
    /// Whether there is such a shape. If not, the panel takes any.
    pub when: Cond,
}

/// The shape of a panel that shows two ranges in proportion: one unit across is
/// `ratio` times as long as one unit up.
pub open spec fn ratio_aspect(x: ScaleRange, y: ScaleRange, ratio: Num) -> PanelAspect {
    let w = e_mul(extent_of(x), Expr::Lit(ratio));
    let h = extent_of(y);
    PanelAspect {
        width: w,
        height: h,
        when: c_and(
            c_and(c_positive(extent_of(x)), c_positive(h)),
            c_and(c_and(c_finite(w), c_finite(h)), c_and(c_positive(w), c_positive(h))),
        ),
    }
}

/// The shape of a panel that an extent fills.
pub open spec fn extent_aspect(b: Extent) -> PanelAspect {
    let w = e_sub(b.max_x, b.min_x);
    let h = e_sub(b.max_y, b.min_y);
    PanelAspect {
        width: w,
        height: h,
        when: c_and(c_and(c_finite(w), c_finite(h)), c_and(c_positive(w), c_positive(h))),
    }
}

/// A square panel.
pub open spec fn square_aspect() -> PanelAspect {
    PanelAspect { width: e_int(1), height: e_int(1), when: Cond::Always }
}

fn extent_for(r: &ScaleRange) -> (e: Expr)
    ensures
        e == extent_of(*r),
{
    Expr::Lit(r.hi).minus(Expr::Lit(r.lo))
}

/// The shape of a panel that shows two ranges in proportion.
pub fn aspect_of_ranges(x: &ScaleRange, y: &ScaleRange, ratio: Num) -> (r: PanelAspect)
    ensures
        r == ratio_aspect(*x, *y, ratio),
{
    let across = extent_for(x);
    let height = extent_for(y);
    let wide = across.is_positive().and(height.is_positive());
    let width = across.times(Expr::Lit(ratio));
    let finite = width.is_finite().and(height.is_finite());
    let open = width.is_positive().and(height.is_positive());
    PanelAspect { width, height, when: wide.and(finite.and(open)) }
}

/// The shape of a panel that an extent fills.
pub fn aspect_of_extent(b: Extent) -> (r: PanelAspect)
    ensures
        r == extent_aspect(b),
{
    let width = b.max_x.minus(b.min_x);
    let height = b.max_y.minus(b.min_y);
    let finite = width.is_finite().and(height.is_finite());
    let open = width.is_positive().and(height.is_positive());
    PanelAspect { width, height, when: finite.and(open) }
}

/// The two ends of a range.
#[derive(Debug)]
pub struct Ends {
    /// Where it starts.
    pub lo: Expr,
    /// Where it ends.
    pub hi: Expr,
}

/// A range, moved apart evenly on both sides to go as far as `extent`.
pub open spec fn padded(lo: Expr, hi: Expr, extent: Expr) -> Ends {
    let pad = e_mul(e_sub(extent, e_sub(hi, lo)), e_half());
    Ends { lo: e_sub(lo, pad), hi: e_add(hi, pad) }
}

/// A range, moved up where it starts too low.
pub open spec fn raised(r: Ends, bound: Expr) -> Ends {
    let low = c_gt(bound, r.lo);
    Ends {
        lo: e_select(low, bound, r.lo),
        hi: e_select(low, e_add(r.hi, e_sub(bound, r.lo)), r.hi),
    }
}

/// A range, moved down where it ends too high, but not below `bound_lo`.
pub open spec fn lowered(r: Ends, bound_lo: Expr, bound_hi: Expr) -> Ends {
    let high = c_gt(r.hi, bound_hi);
    Ends {
        lo: e_select(high, e_max(e_sub(r.lo, e_sub(r.hi, bound_hi)), bound_lo), r.lo),
        hi: e_select(high, bound_hi, r.hi),
    }
}

/// The range of a scale, widened to go as far as `extent` without leaving the
/// bounds of its transform.
pub open spec fn widened(r: ScaleRange, extent: Expr) -> Ends {
    lowered(
        raised(padded(Expr::Lit(r.lo), Expr::Lit(r.hi), extent), Expr::Lit(r.bound_lo)),
        Expr::Lit(r.bound_lo),
        Expr::Lit(r.bound_hi),
    )
}

/// The range of a scale, widened to go as far as `extent`: evenly on both sides
/// where it can, and where it would leave the bounds of the transform on one
/// side, further on the other. Within bounds that are too close for it, it takes
/// them all.
pub fn expand_within_domain(range: &ScaleRange, extent: Expr) -> (r: Ends)
    ensures
        r == widened(*range, extent),
{
    let lo = Expr::Lit(range.lo);
    let hi = Expr::Lit(range.hi);
    let bound_lo = Expr::Lit(range.bound_lo);
    let bound_hi = Expr::Lit(range.bound_hi);
    let pad = extent.minus(hi.again().minus(lo.again())).times(Expr::Ratio(1, 2));
    let lo = lo.minus(pad.again());
    let hi = hi.plus(pad);
    let low = Cond::gt(bound_lo.again(), lo.again());
    let gap = bound_lo.again().minus(lo.again());
    let hi = Expr::select(low.again(), hi.again().plus(gap), hi);
    let lo = Expr::select(low, bound_lo.again(), lo);
    let high = Cond::gt(hi.again(), bound_hi.again());
    let over = hi.again().minus(bound_hi.again());
    let lo = Expr::select(high.again(), lo.again().minus(over).at_least(bound_lo), lo);
    let hi = Expr::select(high, bound_hi, hi);
    Ends { lo, hi }
}

/// The range of a scale that is shown in place of its own.
#[derive(Debug)]
pub struct AspectOverlay {
    /// Whether any range is shown in place of another.
    pub applies: Cond,
    /// Whether it is that of the scale across, rather than of the one up.
    pub across: Cond,
    /// The name of the scale across.
    pub x_scale: String,
    /// The range of the scale across, before its transform is undone.
    pub x_range: Ends,
    /// The name of the scale up.
    pub y_scale: String,
    /// The range of the scale up, before its transform is undone.
    pub y_range: Ends,
}

/// How far the scale across goes to one unit of the scale up, where the ratio is
/// kept in the panel at hand.
pub open spec fn e_target(ratio: Num) -> Expr {
    e_div(e_panel_w(), e_mul(e_panel_h(), Expr::Lit(ratio)))
}

/// How far the scale across goes to one unit of the scale up.
pub open spec fn e_current(x: ScaleRange, y: ScaleRange) -> Expr {
    e_div(extent_of(x), extent_of(y))
}

/// Whether one quantity lies within a trillionth of another.
pub open spec fn c_matches(current: Expr, target: Expr) -> Cond {
    c_ge(
        e_mul(target, Expr::Ratio(1, 1_000_000_000_000)),
        Expr::Abs(std::sync::Arc::new(e_sub(current, target))),
    )
}

/// Whether either range has to give way: both go somewhere, the panel has room,
/// and the ratio is not kept already.
pub open spec fn c_overlaid(x: ScaleRange, y: ScaleRange, ratio: Num) -> Cond {
    c_and(
        c_and(
            c_and(c_finite(extent_of(x)), c_finite(extent_of(y))),
            c_and(c_positive(extent_of(x)), c_positive(extent_of(y))),
        ),
        c_and(
            c_and(
                c_and(c_positive(e_panel_w()), c_positive(e_panel_h())),
                c_positive(Expr::Lit(ratio)),
            ),
            c_not(c_matches(e_current(x, y), e_target(ratio))),
        ),
    )
}

/// The overlay that keeps a ratio between two scales.
pub open spec fn overlay_of(
    x_scale: String,
    x: ScaleRange,
    y_scale: String,
    y: ScaleRange,
    ratio: Num,
) -> AspectOverlay {
    AspectOverlay {
        applies: c_overlaid(x, y, ratio),
        across: c_gt(e_target(ratio), e_current(x, y)),
        x_scale,
        x_range: widened(x, e_mul(extent_of(y), e_target(ratio))),
        y_scale,
        y_range: widened(y, e_div(extent_of(x), e_target(ratio))),
    }
}

/// The overlay that keeps a ratio between two scales.
pub fn overlay_for(
    x_scale: String,
    x: &ScaleRange,
    y_scale: String,
    y: &ScaleRange,
    ratio: Num,
) -> (r: AspectOverlay)
    ensures
        r == overlay_of(x_scale, *x, y_scale, *y, ratio),
{
    let xe = extent_for(x);
    let ye = extent_for(y);
    let target = Expr::panel_w().over(Expr::panel_h().times(Expr::Lit(ratio)));
    let current = xe.again().over(ye.again());
    let off = Expr::Abs(std::sync::Arc::new(current.again().minus(target.again())));
    let close = Cond::ge(target.again().times(Expr::Ratio(1, 1_000_000_000_000)), off);
    let ranges = xe.is_finite().and(ye.is_finite()).and(xe.is_positive().and(ye.is_positive()));
    let room = Expr::panel_w().is_positive().and(Expr::panel_h().is_positive()).and(
        Expr::Lit(ratio).is_positive(),
    );
    let applies = ranges.and(room.and(close.negated()));
    let across = Cond::gt(target.again(), current);
    let x_range = expand_within_domain(x, ye.times(target.again()));
    let y_range = expand_within_domain(y, xe.over(target));
    AspectOverlay { applies, across, x_scale, x_range, y_scale, y_range }
}

proof fn padding_is_even(lo: Expr, hi: Expr, extent: Expr, env: Env)
    ensures
        ({
            let p = padded(lo, hi, extent);
            &&& value(p.hi, env) - value(p.lo, env) == value(extent, env)
            &&& value(lo, env) - value(p.lo, env) == value(p.hi, env) - value(hi, env)
        }),
{
    let pad = e_mul(e_sub(extent, e_sub(hi, lo)), e_half());
    let x = value(extent, env) - (value(hi, env) - value(lo, env));
    assert(value(e_sub(hi, lo), env) == value(hi, env) - value(lo, env));
    assert(value(e_sub(extent, e_sub(hi, lo)), env) == x);
    assert(value(e_half(), env) == 1real / 2real);
    assert(value(pad, env) == x * (1real / 2real));
    assert(value(e_sub(lo, pad), env) == value(lo, env) - value(pad, env));
    assert(value(e_add(hi, pad), env) == value(hi, env) + value(pad, env));
}

proof fn raising_in_numbers(r: Ends, bound: Expr, env: Env)
    ensures
        ({
            let s = raised(r, bound);
            if value(bound, env) > value(r.lo, env) {
                &&& value(s.lo, env) == value(bound, env)
                &&& value(s.hi, env) == value(r.hi, env) + (value(bound, env) - value(r.lo, env))
            } else {
                value(s.lo, env) == value(r.lo, env) && value(s.hi, env) == value(r.hi, env)
            }
        }),
{
    let low = c_gt(bound, r.lo);
    let gap = e_sub(bound, r.lo);
    assert(holds(low, env) == (value(bound, env) > value(r.lo, env)));
    assert(value(gap, env) == value(bound, env) - value(r.lo, env));
    assert(value(e_add(r.hi, gap), env) == value(r.hi, env) + value(gap, env));
}

proof fn lowering_in_numbers(r: Ends, bound_lo: Expr, bound_hi: Expr, env: Env)
    ensures
        ({
            let s = lowered(r, bound_lo, bound_hi);
            if value(r.hi, env) > value(bound_hi, env) {
                &&& value(s.hi, env) == value(bound_hi, env)
                &&& value(s.lo, env) == real_max(
                    value(r.lo, env) - (value(r.hi, env) - value(bound_hi, env)),
                    value(bound_lo, env),
                )
            } else {
                value(s.lo, env) == value(r.lo, env) && value(s.hi, env) == value(r.hi, env)
            }
        }),
{
    let high = c_gt(r.hi, bound_hi);
    let over = e_sub(r.hi, bound_hi);
    let down = e_sub(r.lo, over);
    assert(holds(high, env) == (value(r.hi, env) > value(bound_hi, env)));
    assert(value(over, env) == value(r.hi, env) - value(bound_hi, env));
    assert(value(down, env) == value(r.lo, env) - value(over, env));
    assert(value(e_max(down, bound_lo), env) == real_max(value(down, env), value(bound_lo, env)));
}

/// A range that is widened still holds what it held, stays within the bounds of
/// its transform, and goes as far as was asked, or as far as the bounds do.
pub proof fn widening_stays_in_bounds(r: ScaleRange, extent: Expr, env: Env)
    requires
        r.bound_lo.value() <= r.lo.value() <= r.hi.value() <= r.bound_hi.value(),
        r.hi.value() - r.lo.value() <= value(extent, env),
    ensures
        ({
            let w = widened(r, extent);
            let room = r.bound_hi.value() - r.bound_lo.value();
            &&& r.bound_lo.value() <= value(w.lo, env) <= r.lo.value()
            &&& r.hi.value() <= value(w.hi, env) <= r.bound_hi.value()
            &&& value(extent, env) <= room ==> value(w.hi, env) - value(w.lo, env) == value(
                extent,
                env,
            )
            &&& value(extent, env) > room ==> value(w.lo, env) == r.bound_lo.value() && value(
                w.hi,
                env,
            ) == r.bound_hi.value()
        }),
{
    let lo = Expr::Lit(r.lo);
    let hi = Expr::Lit(r.hi);
    let bl = Expr::Lit(r.bound_lo);
    let bh = Expr::Lit(r.bound_hi);
    assert(value(lo, env) == r.lo.value());
    assert(value(hi, env) == r.hi.value());
    assert(value(bl, env) == r.bound_lo.value());
    assert(value(bh, env) == r.bound_hi.value());
    let p = padded(lo, hi, extent);
    padding_is_even(lo, hi, extent, env);
    raising_in_numbers(p, bl, env);
    lowering_in_numbers(raised(p, bl), bl, bh, env);
}

/// Away from the bounds of its transform, a range is widened by as much on one
/// side as on the other.
pub proof fn widening_is_even(r: ScaleRange, extent: Expr, env: Env)
    requires
        ({
            let pad = (value(extent, env) - (r.hi.value() - r.lo.value())) / 2real;
            &&& r.bound_lo.value() <= r.lo.value() - pad
            &&& r.hi.value() + pad <= r.bound_hi.value()
        }),
    ensures
        ({
            let w = widened(r, extent);
            &&& value(w.hi, env) - value(w.lo, env) == value(extent, env)
            &&& r.lo.value() - value(w.lo, env) == value(w.hi, env) - r.hi.value()
        }),
{
    let lo = Expr::Lit(r.lo);
    let hi = Expr::Lit(r.hi);
    let bl = Expr::Lit(r.bound_lo);
    let bh = Expr::Lit(r.bound_hi);
    assert(value(lo, env) == r.lo.value());
    assert(value(hi, env) == r.hi.value());
    assert(value(bl, env) == r.bound_lo.value());
    assert(value(bh, env) == r.bound_hi.value());
    let p = padded(lo, hi, extent);
    padding_is_even(lo, hi, extent, env);
    raising_in_numbers(p, bl, env);
    lowering_in_numbers(raised(p, bl), bl, bh, env);
}

/// Whichever range gives way, it is asked to go further than it did, and far
/// enough for the ratio to be kept.
pub proof fn overlay_keeps_the_ratio(x: ScaleRange, y: ScaleRange, ratio: Num, env: Env)
    requires
        holds(c_overlaid(x, y, ratio), env),
    ensures
        ({
            let xe = value(extent_of(x), env);
            let ye = value(extent_of(y), env);
            let target = value(e_target(ratio), env);
            let new_x = value(e_mul(extent_of(y), e_target(ratio)), env);
            let new_y = value(e_div(extent_of(x), e_target(ratio)), env);
            &&& target > 0real
            &&& new_x / ye == target
            &&& xe / new_y == target
            &&& holds(c_gt(e_target(ratio), e_current(x, y)), env) ==> new_x > xe
            &&& !holds(c_gt(e_target(ratio), e_current(x, y)), env) ==> new_y >= ye
        }),
{
    reveal_with_fuel(holds, 6);
    let xe = value(extent_of(x), env);
    let ye = value(extent_of(y), env);
    let pw = value(e_panel_w(), env);
    let ph = value(e_panel_h(), env);
    let rv = value(Expr::Lit(ratio), env);
    let target = value(e_target(ratio), env);
    assert(value(e_int(0), env) == 0real) by {
        assert(0real / 1real == 0real);
    }
    assert(holds(c_positive(extent_of(x)), env));
    assert(holds(c_positive(extent_of(y)), env));
    assert(holds(c_positive(e_panel_w()), env));
    assert(holds(c_positive(e_panel_h()), env));
    assert(holds(c_positive(Expr::Lit(ratio)), env));
    assert(xe > 0real && ye > 0real && pw > 0real && ph > 0real && rv > 0real);
    assert(value(e_mul(e_panel_h(), Expr::Lit(ratio)), env) == ph * rv);
    assert(target == pw / (ph * rv));
    assert(ph * rv > 0real) by (nonlinear_arith)
        requires
            ph > 0real,
            rv > 0real,
    ;
    let d = ph * rv;
    assert(target > 0real) by (nonlinear_arith)
        requires
            target == pw / d,
            pw > 0real,
            d > 0real,
    ;
    let new_x = value(e_mul(extent_of(y), e_target(ratio)), env);
    let new_y = value(e_div(extent_of(x), e_target(ratio)), env);
    assert(new_x == ye * target);
    assert(new_y == xe / target);
    assert(new_x / ye == target) by (nonlinear_arith)
        requires
            new_x == ye * target,
            ye > 0real,
    ;
    assert(new_y > 0real && new_y * target == xe) by (nonlinear_arith)
        requires
            new_y == xe / target,
            xe > 0real,
            target > 0real,
    ;
    assert(xe / new_y == target) by (nonlinear_arith)
        requires
            new_y * target == xe,
            new_y > 0real,
    ;
    let current = value(e_current(x, y), env);
    assert(current == xe / ye);
    assert(current * ye == xe) by (nonlinear_arith)
        requires
            current == xe / ye,
            ye > 0real,
    ;
    assert(holds(c_gt(e_target(ratio), e_current(x, y)), env) == (target > current));
    if target > current {
        assert(ye * target > xe) by (nonlinear_arith)
            requires
                target > current,
                current * ye == xe,
                ye > 0real,
        ;
    } else {
        assert(new_y >= ye) by (nonlinear_arith)
            requires
                target <= current,
                current * ye == xe,
                new_y * target == xe,
                target > 0real,
                ye > 0real,
                new_y > 0real,
        ;
    }
}

} // verus!
