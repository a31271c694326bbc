//! Where fractions lead: round and outward in the disk, along arcs or along the
//! polygon through the breaks, and how the disk lies in the panel.

use std::sync::Arc;
use vstd::prelude::*;

use crate::expr::{
    c_and, c_ge, c_gt, c_not, c_or, c_within, e_add, e_div, e_half, e_int, e_max, e_min, e_mul,
    e_neg, e_panel_h, e_panel_w, e_select, e_sub, holds, real_max, real_min, value, Cond, Env, Expr,
    Quantity,
};
use crate::laws::data::{one_is_one, zero_is_nought};
use crate::num::{rank_is_value_order, two_to, two_to_step, Num};
use crate::order::{ascending, sorting_keeps_numbers};
use crate::projection::{
    c_has_room, c_in_sweep, c_in_sweep_by, c_reaches, drawn_in, e_along, either, extend,
    extend_where, extent_of, mixed, on_circle, real_abs, taken_round, Corner, EdgeFacts, Extent,
    Fractions, PolarEdgeStyle, PolarProjection, Projection, ThetaBreaks, UnitPoint, CHORD_ERROR_PX,
    FULL_CIRCLE_END, FULL_TURN, HALF_TURN, ONE, QUARTER_TURN, ZERO,
};

verus! {

/// The angle at a fraction of the sweep.
pub open spec fn angle(p: PolarProjection, f: real) -> real {
    p.theta_start.value() + f * (p.theta_end.value() - p.theta_start.value())
}

/// Where break `i` lies, as a fraction of the sweep: at the middle of its band,
/// or where it was put.
pub open spec fn break_at(b: ThetaBreaks, i: int) -> real {
    match b {
        ThetaBreaks::BandCentres(n) => ((2 * i + 1) as real) / ((2 * n) as real),
        ThetaBreaks::At(v) => v@[i].value(),
    }
}

/// Whether all breaks are numbers.
pub open spec fn are_numbers(b: ThetaBreaks) -> bool {
    b matches ThetaBreaks::At(v) ==> forall|i: int|
        0 <= i < v@.len() ==> (#[trigger] v@[i]).finite()
}

/// Whether a point is the one of the unit circle at an angle, up being positive.
pub open spec fn is_on_circle(u: UnitPoint, theta: real, env: Env) -> bool {
    &&& value(u.x, env) == (env.cos)(theta)
    &&& value(u.y, env) == (env.sin)(theta)
}

spec fn some_corner(p: PolarProjection, ends: bool, k: int) -> Corner {
    if ends {
        p.corner_with_ends(k)
    } else {
        p.corner(k)
    }
}

spec fn corner_count(p: PolarProjection, ends: bool) -> nat {
    if ends {
        p.theta_break_fracs.count() + 2
    } else {
        p.theta_break_fracs.count()
    }
}

spec fn numbers_of(v: Seq<Num>, ends: bool) -> Seq<Num> {
    if ends {
        seq![Num { bits: ZERO }] + v + seq![Num { bits: ONE }]
    } else {
        v
    }
}

proof fn ends_are_numbers(v: Seq<Num>, ends: bool)
    requires
        forall|i: int| 0 <= i < v.len() ==> (#[trigger] v[i]).finite(),
    ensures
        ascending(numbers_of(v, ends)).len() == numbers_of(v, ends).len(),
        forall|i: int|
            0 <= i < numbers_of(v, ends).len() ==> (#[trigger] ascending(
                numbers_of(v, ends),
            )[i]).finite(),
{
    let s = numbers_of(v, ends);
    let a = ascending(s);
    zero_is_nought();
    one_is_one();
    sorting_keeps_numbers(s);
    s.to_multiset_ensures();
    a.to_multiset_ensures();
    assert forall|i: int| 0 <= i < s.len() implies (#[trigger] a[i]).finite() by {
        assert(a.contains(a[i]));
        assert(s.to_multiset().contains(a[i]));
        let x = choose|x: int| 0 <= x < s.len() && s[x] == a[i];
        if ends {
            if 0 < x < s.len() - 1 {
                assert(s[x] == v[x - 1]);
            }
        } else {
            assert(s[x] == v[x]);
        }
    }
}

proof fn corners_rise(p: PolarProjection, ends: bool, j: int, k: int, env: Env)
    requires
        are_numbers(p.theta_break_fracs),
        0 <= j <= k < corner_count(p, ends),
    ensures
        value(some_corner(p, ends, j).frac, env) <= value(some_corner(p, ends, k).frac, env),
{
    zero_is_nought();
    one_is_one();
    match p.theta_break_fracs {
        ThetaBreaks::BandCentres(n) => {
            let a = if ends {
                j - 1
            } else {
                j
            };
            let b = if ends {
                k - 1
            } else {
                k
            };
            let x = (2 * a + 1) as real;
            let y = (2 * b + 1) as real;
            let d = (2 * n) as real;
            if n > 0 {
                assert(x <= y ==> x / d <= y / d) by (nonlinear_arith)
                    requires
                        d > 0real,
                ;
                assert(x > 0real ==> 0real <= x / d) by (nonlinear_arith)
                    requires
                        d > 0real,
                ;
                assert(y > 0real ==> 0real <= y / d) by (nonlinear_arith)
                    requires
                        d > 0real,
                ;
                assert(x <= d ==> x / d <= 1real) by (nonlinear_arith)
                    requires
                        d > 0real,
                ;
            }
        },
        ThetaBreaks::At(v) => {
            let s = numbers_of(v@, ends);
            let a = ascending(s);
            sorting_keeps_numbers(s);
            ends_are_numbers(v@, ends);
            assert(s.len() == corner_count(p, ends));
            assert(a[j].finite() && a[k].finite());
            assert(a[j].rank() <= a[k].rank());
            rank_is_value_order(a[k], a[j]);
        },
    }
}

/// A break, or an end of the sweep, is one of the corners.
proof fn breaks_are_corners(p: PolarProjection, ends: bool, i: int, env: Env) -> (k: int)
    requires
        are_numbers(p.theta_break_fracs),
        0 <= i < p.theta_break_fracs.count() || ends && -1 <= i <= p.theta_break_fracs.count(),
    ensures
        0 <= k < corner_count(p, ends),
        value(some_corner(p, ends, k).frac, env) == (if i < 0 {
            0real
        } else if i == p.theta_break_fracs.count() {
            1real
        } else {
            break_at(p.theta_break_fracs, i)
        }),
{
    zero_is_nought();
    one_is_one();
    match p.theta_break_fracs {
        ThetaBreaks::BandCentres(n) => {
            let k: int = if ends {
                i + 1
            } else {
                i
            };
            k
        },
        ThetaBreaks::At(v) => {
            let s = numbers_of(v@, ends);
            let x: int = if ends {
                i + 1
            } else {
                i
            };
            let a = ascending(s);
            sorting_keeps_numbers(s);
            s.to_multiset_ensures();
            a.to_multiset_ensures();
            assert(s.contains(s[x]));
            assert(a.to_multiset().contains(s[x]));
            assert(a.contains(s[x]));
            let k = choose|k: int| 0 <= k < a.len() && a[k] == s[x];
            k
        },
    }
}

proof fn corners_are_on_the_circle(p: PolarProjection, ends: bool, k: int, env: Env)
    ensures
        is_on_circle(
            some_corner(p, ends, k).at,
            angle(p, value(some_corner(p, ends, k).frac, env)),
            env,
        ),
{
    let f = some_corner(p, ends, k).frac;
    angles_are_fractions_of_the_sweep(p, f, env);
    assert(some_corner(p, ends, k).at == on_circle(p.theta_at(f)));
}

proof fn mixtures_are_weighted(lo: UnitPoint, hi: UnitPoint, u: Expr, env: Env)
    ensures
        value(mixed(lo, hi, u).x, env) == value(lo.x, env) * (1real - value(u, env)) + value(
            hi.x,
            env,
        ) * value(u, env),
        value(mixed(lo, hi, u).y, env) == value(lo.y, env) * (1real - value(u, env)) + value(
            hi.y,
            env,
        ) * value(u, env),
{
    let one = e_int(1);
    assert(value(one, env) == 1real) by {
        assert(1real / 1real == 1real);
    }
    let rest = e_sub(one, u);
    assert(value(rest, env) == 1real - value(u, env));
    assert(value(e_mul(lo.x, rest), env) == value(lo.x, env) * value(rest, env));
    assert(value(e_mul(lo.y, rest), env) == value(lo.y, env) * value(rest, env));
    assert(value(e_mul(hi.x, u), env) == value(hi.x, env) * value(u, env));
    assert(value(e_mul(hi.y, u), env) == value(hi.y, env) * value(u, env));
}

proof fn edges_reach(lo: Expr, hi: Expr, t: Expr, env: Env)
    ensures
        holds(c_reaches(lo, hi, t), env) == (value(lo, env) <= value(t, env) <= value(hi, env)
            && value(lo, env) < value(hi, env)),
        value(e_div(e_sub(t, lo), e_sub(hi, lo)), env) == (value(t, env) - value(lo, env)) / (value(
            hi,
            env,
        ) - value(lo, env)),
{
    reveal_with_fuel(holds, 3);
    assert(value(e_sub(t, lo), env) == value(t, env) - value(lo, env));
    assert(value(e_sub(hi, lo), env) == value(hi, env) - value(lo, env));
}

/// The angle goes evenly from the start of the sweep to its end.
pub proof fn angles_are_fractions_of_the_sweep(p: PolarProjection, f: Expr, env: Env)
    ensures
        value(p.theta_at(f), env) == angle(p, value(f, env)),
{
    let a = Expr::Lit(p.theta_start);
    let b = Expr::Lit(p.theta_end);
    assert(value(a, env) == p.theta_start.value() && value(b, env) == p.theta_end.value());
    assert(value(e_sub(b, a), env) == p.theta_end.value() - p.theta_start.value());
    assert(value(e_mul(f, e_sub(b, a)), env) == value(f, env) * value(e_sub(b, a), env));
}

proof fn edges_meet_their_corners(
    p: PolarProjection,
    t: Expr,
    k: int,
    ends: bool,
    rest: UnitPoint,
    j: int,
    env: Env,
)
    requires
        are_numbers(p.theta_break_fracs),
        0 <= k <= j < corner_count(p, ends),
        value(t, env) == value(some_corner(p, ends, j).frac, env),
        value(t, env) == value(some_corner(p, ends, k).frac, env) && value(t, env) == value(
            some_corner(p, ends, corner_count(p, ends) - 1).frac,
            env,
        ) ==> is_on_circle(rest, angle(p, value(t, env)), env),
    ensures
        is_on_circle(
            p.on_edges(t, corner_count(p, ends), k, ends, rest),
            angle(p, value(t, env)),
            env,
        ),
    decreases corner_count(p, ends) - k,
{
    let n = corner_count(p, ends);
    if k + 1 < n {
        let lo = some_corner(p, ends, k);
        let hi = some_corner(p, ends, k + 1);
        let x = value(lo.frac, env);
        let y = value(hi.frac, env);
        let z = value(t, env);
        corners_rise(p, ends, k, k + 1, env);
        corners_rise(p, ends, k, j, env);
        if k < j {
            corners_rise(p, ends, k + 1, j, env);
        }
        corners_are_on_the_circle(p, ends, k, env);
        corners_are_on_the_circle(p, ends, k + 1, env);
        edges_reach(lo.frac, hi.frac, t, env);
        let u = e_div(e_sub(t, lo.frac), e_sub(hi.frac, lo.frac));
        mixtures_are_weighted(lo.at, hi.at, u, env);
        if x < y {
            assert((x - x) / (y - x) == 0real && (y - x) / (y - x) == 1real) by (nonlinear_arith)
                requires
                    x < y,
            ;
            let a = value(lo.at.x, env);
            let b = value(hi.at.x, env);
            let c = value(lo.at.y, env);
            let d = value(hi.at.y, env);
            assert(a * (1real - 0real) + b * 0real == a && a * (1real - 1real) + b * 1real == b)
                by (nonlinear_arith);
            assert(c * (1real - 0real) + d * 0real == c && c * (1real - 1real) + d * 1real == d)
                by (nonlinear_arith);
        }
        if !(x <= z <= y && x < y) {
            let i = if j == k {
                k + 1
            } else {
                j
            };
            edges_meet_their_corners(p, t, k + 1, ends, rest, i, env);
        }
    }
}

/// At a break the polygon meets the circle: a chord starts and ends on it. Where
/// the sweep does not go all the way round it does so at its two ends as well.
pub proof fn polygons_meet_the_circle_at_breaks(p: PolarProjection, i: int, t: Expr, env: Env)
    requires
        p.edge_style == PolarEdgeStyle::Chord,
        are_numbers(p.theta_break_fracs),
        p.theta_break_fracs.count() > 0,
        ({
            ||| 0 <= i < p.theta_break_fracs.count() && value(t, env) == break_at(
                p.theta_break_fracs,
                i,
            )
            ||| !holds(p.c_full_circle(), env) && (value(t, env) == 0real || value(t, env) == 1real)
        }),
    ensures
        is_on_circle(p.unit_point(t), angle(p, value(t, env)), env),
{
    let ends = !holds(p.c_full_circle(), env);
    let n = corner_count(p, ends);
    let c = p.theta_break_fracs.count();
    let f = value(t, env);
    let i = if 0 <= i < c && f == break_at(p.theta_break_fracs, i) {
        i
    } else if f == 0real {
        -1
    } else {
        c as int
    };
    let j = breaks_are_corners(p, ends, i, env);
    let first = some_corner(p, ends, 0);
    let last = some_corner(p, ends, n - 1);
    corners_rise(p, ends, 0, j, env);
    corners_rise(p, ends, j, n - 1, env);
    corners_are_on_the_circle(p, ends, 0, env);
    corners_are_on_the_circle(p, ends, n - 1, env);
    if ends {
        let rest = either(c_gt(first.frac, t), first.at, last.at);
        edges_meet_their_corners(p, t, 0, true, rest, j, env);
    } else {
        let one = e_int(1);
        let total = e_add(e_sub(one, last.frac), first.frac);
        let after = e_div(e_sub(t, last.frac), total);
        let before = e_div(e_add(e_sub(one, last.frac), t), total);
        let u = e_select(c_ge(t, last.frac), after, before);
        mixtures_are_weighted(last.at, first.at, u, env);
        let rest = mixed(last.at, first.at, u);
        if f == value(first.frac, env) && f == value(last.frac, env) {
            assert(value(one, env) == 1real) by {
                assert(1real / 1real == 1real);
            }
            assert(value(e_sub(one, last.frac), env) == 1real - f);
            assert(value(total, env) == 1real);
            assert(value(e_sub(t, last.frac), env) == 0real);
            assert(value(after, env) == 0real / 1real);
            assert(0real / 1real == 0real);
            assert(holds(c_ge(t, last.frac), env));
            assert(value(u, env) == 0real);
            let a = value(last.at.x, env);
            let b = value(first.at.x, env);
            let c = value(last.at.y, env);
            let d = value(first.at.y, env);
            assert(a * (1real - 0real) + b * 0real == a) by (nonlinear_arith);
            assert(c * (1real - 0real) + d * 0real == c) by (nonlinear_arith);
        }
        edges_meet_their_corners(p, t, 0, false, rest, j, env);
    }
}

/// Whether the polygon has a corner at a fraction of the sweep: at a break, and
/// where the sweep does not go all the way round at its two ends.
pub open spec fn has_corner_at(p: PolarProjection, f: real, env: Env) -> bool {
    ||| exists|i: int|
        0 <= i < p.theta_break_fracs.count() && f == #[trigger] break_at(p.theta_break_fracs, i)
    ||| !holds(p.c_full_circle(), env) && (f == 0real || f == 1real)
}

/// Whether a point lies on the chord between two angles, so far along from the
/// first.
pub open spec fn is_on_chord(u: UnitPoint, from: real, to: real, along: real, env: Env) -> bool {
    &&& value(u.x, env) == (env.cos)(from) * (1real - along) + (env.cos)(to) * along
    &&& value(u.y, env) == (env.sin)(from) * (1real - along) + (env.sin)(to) * along
}

proof fn corner_of(p: PolarProjection, f: real, env: Env) -> (k: int)
    requires
        are_numbers(p.theta_break_fracs),
        has_corner_at(p, f, env),
    ensures
        ({
            let ends = !holds(p.c_full_circle(), env);
            &&& 0 <= k < corner_count(p, ends)
            &&& value(some_corner(p, ends, k).frac, env) == f
        }),
{
    let ends = !holds(p.c_full_circle(), env);
    let c = p.theta_break_fracs.count();
    if exists|i: int| 0 <= i < c && f == #[trigger] break_at(p.theta_break_fracs, i) {
        let i = choose|i: int| 0 <= i < c && f == #[trigger] break_at(p.theta_break_fracs, i);
        breaks_are_corners(p, ends, i, env)
    } else if f == 0real {
        breaks_are_corners(p, ends, -1, env)
    } else {
        breaks_are_corners(p, ends, c as int, env)
    }
}

/// Every corner is at a break or at an end of the sweep.
proof fn corners_are_breaks(p: PolarProjection, k: int, env: Env)
    requires
        0 <= k < corner_count(p, !holds(p.c_full_circle(), env)),
    ensures
        has_corner_at(
            p,
            value(some_corner(p, !holds(p.c_full_circle(), env), k).frac, env),
            env,
        ),
{
    let ends = !holds(p.c_full_circle(), env);
    let b = p.theta_break_fracs;
    let f = value(some_corner(p, ends, k).frac, env);
    zero_is_nought();
    one_is_one();
    match b {
        ThetaBreaks::BandCentres(n) => {
            let i: int = if ends {
                k - 1
            } else {
                k
            };
            if 0 <= i < n {
                assert(f == break_at(b, i));
            }
        },
        ThetaBreaks::At(v) => {
            let s = numbers_of(v@, ends);
            let a = ascending(s);
            sorting_keeps_numbers(s);
            s.to_multiset_ensures();
            a.to_multiset_ensures();
            assert(a.contains(a[k]));
            assert(s.to_multiset().contains(a[k]));
            let x = choose|x: int| 0 <= x < s.len() && s[x] == a[k];
            let i: int = if ends {
                x - 1
            } else {
                x
            };
            if 0 <= i < v@.len() {
                assert(s[x] == v@[i]);
                assert(f == break_at(b, i));
            }
        },
    }
}

proof fn edges_run_between_neighbours(
    p: PolarProjection,
    t: Expr,
    k: int,
    ends: bool,
    rest: UnitPoint,
    i: int,
    j: int,
    env: Env,
)
    requires
        are_numbers(p.theta_break_fracs),
        0 <= k <= i < corner_count(p, ends),
        0 <= j < corner_count(p, ends),
        value(some_corner(p, ends, i).frac, env) < value(t, env) < value(
            some_corner(p, ends, j).frac,
            env,
        ),
        forall|m: int|
            0 <= m < corner_count(p, ends) ==> value((#[trigger] some_corner(p, ends, m)).frac, env)
                <= value(some_corner(p, ends, i).frac, env) || value(
                some_corner(p, ends, m).frac,
                env,
            ) >= value(some_corner(p, ends, j).frac, env),
    ensures
        ({
            let x = value(some_corner(p, ends, i).frac, env);
            let y = value(some_corner(p, ends, j).frac, env);
            is_on_chord(
                p.on_edges(t, corner_count(p, ends), k, ends, rest),
                angle(p, x),
                angle(p, y),
                (value(t, env) - x) / (y - x),
                env,
            )
        }),
    decreases corner_count(p, ends) - k,
{
    let n = corner_count(p, ends);
    if j <= i {
        corners_rise(p, ends, j, i, env);
    }
    let lo = some_corner(p, ends, k);
    let hi = some_corner(p, ends, k + 1);
    corners_rise(p, ends, k, i, env);
    corners_rise(p, ends, k, k + 1, env);
    edges_reach(lo.frac, hi.frac, t, env);
    let u = e_div(e_sub(t, lo.frac), e_sub(hi.frac, lo.frac));
    mixtures_are_weighted(lo.at, hi.at, u, env);
    corners_are_on_the_circle(p, ends, k, env);
    corners_are_on_the_circle(p, ends, k + 1, env);
    if value(hi.frac, env) < value(t, env) {
        let m = if i == k {
            k + 1
        } else {
            i
        };
        edges_run_between_neighbours(p, t, k + 1, ends, rest, m, j, env);
    } else {
        if k < i {
            corners_rise(p, ends, k + 1, i, env);
        }
        corners_rise(p, ends, k + 1, j, env);
    }
}

/// Between two neighbouring corners the polygon runs straight, and evenly.
pub proof fn polygons_run_straight_between_breaks(
    p: PolarProjection,
    x: real,
    y: real,
    t: Expr,
    env: Env,
)
    requires
        p.edge_style == PolarEdgeStyle::Chord,
        are_numbers(p.theta_break_fracs),
        p.theta_break_fracs.count() > 0,
        has_corner_at(p, x, env),
        has_corner_at(p, y, env),
        x < value(t, env) < y,
        forall|f: real| x < f < y ==> !#[trigger] has_corner_at(p, f, env),
    ensures
        is_on_chord(
            p.unit_point(t),
            angle(p, x),
            angle(p, y),
            (value(t, env) - x) / (y - x),
            env,
        ),
{
    let ends = !holds(p.c_full_circle(), env);
    let n = corner_count(p, ends);
    let i = corner_of(p, x, env);
    let j = corner_of(p, y, env);
    assert forall|m: int| 0 <= m < n implies value((#[trigger] some_corner(p, ends, m)).frac, env)
        <= x || value(some_corner(p, ends, m).frac, env) >= y by {
        corners_are_breaks(p, m, env);
    }
    let first = some_corner(p, ends, 0);
    let last = some_corner(p, ends, n - 1);
    if ends {
        let rest = either(c_gt(first.frac, t), first.at, last.at);
        edges_run_between_neighbours(p, t, 0, true, rest, i, j, env);
    } else {
        let total = e_add(e_sub(e_int(1), last.frac), first.frac);
        let u = e_select(
            c_ge(t, last.frac),
            e_div(e_sub(t, last.frac), total),
            e_div(e_add(e_sub(e_int(1), last.frac), t), total),
        );
        edges_run_between_neighbours(p, t, 0, false, mixed(last.at, first.at, u), i, j, env);
    }
}

proof fn edges_end_at_the_last_corner(
    p: PolarProjection,
    t: Expr,
    k: int,
    ends: bool,
    rest: UnitPoint,
    env: Env,
)
    requires
        are_numbers(p.theta_break_fracs),
        0 <= k < corner_count(p, ends),
        value(t, env) < value(some_corner(p, ends, k).frac, env) || value(t, env) > value(
            some_corner(p, ends, corner_count(p, ends) - 1).frac,
            env,
        ),
    ensures
        value(p.on_edges(t, corner_count(p, ends), k, ends, rest).x, env) == value(rest.x, env),
        value(p.on_edges(t, corner_count(p, ends), k, ends, rest).y, env) == value(rest.y, env),
    decreases corner_count(p, ends) - k,
{
    let n = corner_count(p, ends);
    if k + 1 < n {
        let lo = some_corner(p, ends, k);
        let hi = some_corner(p, ends, k + 1);
        corners_rise(p, ends, k, k + 1, env);
        corners_rise(p, ends, k + 1, n - 1, env);
        edges_reach(lo.frac, hi.frac, t, env);
        edges_end_at_the_last_corner(p, t, k + 1, ends, rest, env);
    }
}

/// Past the last break of a full circle, and before the first, the polygon runs
/// straight from the last to the first.
pub proof fn polygons_close(p: PolarProjection, i: int, j: int, t: Expr, env: Env)
    requires
        p.edge_style == PolarEdgeStyle::Chord,
        are_numbers(p.theta_break_fracs),
        holds(p.c_full_circle(), env),
        0 <= i < p.theta_break_fracs.count(),
        0 <= j < p.theta_break_fracs.count(),
        forall|m: int|
            0 <= m < p.theta_break_fracs.count() ==> break_at(p.theta_break_fracs, i)
                <= #[trigger] break_at(p.theta_break_fracs, m) <= break_at(p.theta_break_fracs, j),
        value(t, env) < break_at(p.theta_break_fracs, i) || value(t, env) > break_at(
            p.theta_break_fracs,
            j,
        ),
    ensures
        ({
            let x = break_at(p.theta_break_fracs, i);
            let y = break_at(p.theta_break_fracs, j);
            let gone = if value(t, env) > y {
                value(t, env) - y
            } else {
                1real - y + value(t, env)
            };
            is_on_chord(
                p.unit_point(t),
                angle(p, y),
                angle(p, x),
                gone / (1real - y + x),
                env,
            )
        }),
{
    let x = break_at(p.theta_break_fracs, i);
    let y = break_at(p.theta_break_fracs, j);
    let n = corner_count(p, false);
    let first = some_corner(p, false, 0);
    let last = some_corner(p, false, n - 1);
    let a = breaks_are_corners(p, false, i, env);
    let b = breaks_are_corners(p, false, j, env);
    corners_rise(p, false, 0, a, env);
    corners_rise(p, false, b, n - 1, env);
    corners_are_breaks(p, 0, env);
    corners_are_breaks(p, n - 1, env);
    assert(value(first.frac, env) == x && value(last.frac, env) == y);
    corners_are_on_the_circle(p, false, 0, env);
    corners_are_on_the_circle(p, false, n - 1, env);
    let one = e_int(1);
    assert(value(one, env) == 1real) by {
        assert(1real / 1real == 1real);
    }
    let left = e_sub(one, last.frac);
    assert(value(left, env) == 1real - y);
    let total = e_add(left, first.frac);
    assert(value(total, env) == 1real - y + x);
    assert(value(e_sub(t, last.frac), env) == value(t, env) - y);
    assert(value(e_add(left, t), env) == 1real - y + value(t, env));
    let after = e_div(e_sub(t, last.frac), total);
    let before = e_div(e_add(left, t), total);
    assert(value(after, env) == (value(t, env) - y) / (1real - y + x));
    assert(value(before, env) == (1real - y + value(t, env)) / (1real - y + x));
    assert(holds(c_ge(t, last.frac), env) == (value(t, env) >= y));
    let u = e_select(c_ge(t, last.frac), after, before);
    let rest = mixed(last.at, first.at, u);
    mixtures_are_weighted(last.at, first.at, u, env);
    edges_end_at_the_last_corner(p, t, 0, false, rest, env);
}

/// A sweep goes all the way round if it is a full turn long, either way, to a
/// millionth.
pub proof fn full_circles_go_all_the_way_round(p: PolarProjection, env: Env)
    ensures
        holds(p.c_full_circle(), env) == ({
            let span = p.theta_end.value() - p.theta_start.value();
            let turn = (Num { bits: FULL_TURN }).value();
            real_abs(real_abs(span) - turn) < 1real / 1_000_000real
        }),
{
    let a = Expr::Lit(p.theta_start);
    let b = Expr::Lit(p.theta_end);
    let turn = Expr::Lit(Num { bits: FULL_TURN });
    assert(value(a, env) == p.theta_start.value() && value(b, env) == p.theta_end.value());
    let span = e_sub(b, a);
    assert(value(span, env) == p.theta_end.value() - p.theta_start.value());
    let long = Expr::Abs(Arc::new(span));
    assert(value(long, env) == real_abs(value(span, env)));
    assert(value(turn, env) == (Num { bits: FULL_TURN }).value());
    let off = e_sub(long, turn);
    assert(value(off, env) == value(long, env) - value(turn, env));
    assert(value(Expr::Abs(Arc::new(off)), env) == real_abs(value(off, env)));
    assert(value(Expr::Ratio(1, 1_000_000), env) == 1real / 1_000_000real);
}

/// The point of the unit circle at an angle, up being positive.
pub open spec fn circle_at(theta: real, env: Env) -> (real, real) {
    ((env.cos)(theta), (env.sin)(theta))
}

/// A point, drawn in towards the centre.
pub open spec fn drawn_towards_centre(by: real, q: (real, real)) -> (real, real) {
    (by * q.0, by * q.1)
}

/// Where a point lies.
pub open spec fn place_of(u: UnitPoint, env: Env) -> (real, real) {
    (value(u.x, env), value(u.y, env))
}

/// Whether this is the smallest box around points.
#[verifier::opaque]
pub open spec fn is_box_of(b: Extent, points: Seq<(real, real)>, env: Env) -> bool {
    &&& forall|i: int|
        0 <= i < points.len() ==> {
            &&& value(b.min_x, env) <= (#[trigger] points[i]).0 <= value(b.max_x, env)
            &&& value(b.min_y, env) <= points[i].1 <= value(b.max_y, env)
        }
    &&& exists|i: int| 0 <= i < points.len() && (#[trigger] points[i]).0 == value(b.min_x, env)
    &&& exists|i: int| 0 <= i < points.len() && (#[trigger] points[i]).0 == value(b.max_x, env)
    &&& exists|i: int| 0 <= i < points.len() && (#[trigger] points[i]).1 == value(b.min_y, env)
    &&& exists|i: int| 0 <= i < points.len() && (#[trigger] points[i]).1 == value(b.max_y, env)
}

/// Whether the sweep passes an angle, up to two turns round. A sweep without
/// length passes its start alone.
pub open spec fn is_swept(p: PolarProjection, theta: real) -> bool {
    exists|m: int| -2 <= m <= 2 && #[trigger] is_swept_after(p, theta, m)
}

/// Whether the sweep passes an angle that is taken round by so many turns.
pub open spec fn is_swept_after(p: PolarProjection, theta: real, turns: int) -> bool {
    let turn = (Num { bits: FULL_TURN }).value();
    let span = p.theta_end.value() - p.theta_start.value();
    let gone = theta + (turns as real) * turn - p.theta_start.value();
    if real_abs(span) < 1real / 1_000_000_000_000real {
        real_abs(gone) < 1real / 1_000_000_000real
    } else {
        0real <= gone / span <= 1real
    }
}

/// Of the first `n` of the five quarter turns from half a turn back to half a
/// turn on, the points of those that the sweep passes.
pub open spec fn quarters_swept(p: PolarProjection, n: nat, env: Env) -> Seq<(real, real)>
    decreases n,
{
    if n == 0 {
        Seq::empty()
    } else {
        let theta = ((n - 3) as real) * (Num { bits: QUARTER_TURN }).value();
        let before = quarters_swept(p, (n - 1) as nat, env);
        if is_swept(p, theta) {
            before.push(circle_at(theta, env))
        } else {
            before
        }
    }
}

/// The points that tell how far the outer edge reaches.
pub open spec fn rim_points(p: PolarProjection, env: Env) -> Seq<(real, real)> {
    let start = circle_at(p.theta_start.value(), env);
    let end = circle_at(p.theta_end.value(), env);
    let b = p.theta_break_fracs;
    if p.edge_style == PolarEdgeStyle::Chord && b.count() > 0 {
        let corners = Seq::new(b.count(), |i: int| circle_at(angle(p, break_at(b, i)), env));
        if holds(p.c_full_circle(), env) {
            corners
        } else {
            corners.push(start).push(end)
        }
    } else {
        seq![start, end] + quarters_swept(p, 5, env)
    }
}

/// The points that tell how far in the region reaches: its hole, or without one
/// the centre.
pub open spec fn hole_points(p: PolarProjection, env: Env) -> Seq<(real, real)> {
    let b = p.theta_break_fracs;
    let by = p.inner_radius_frac.value();
    if !p.inner_radius_frac.above_zero() {
        seq![(0real, 0real)]
    } else if p.edge_style == PolarEdgeStyle::Chord && b.count() > 0 {
        Seq::new(
            b.count(),
            |i: int| drawn_towards_centre(by, circle_at(angle(p, break_at(b, i)), env)),
        )
    } else {
        seq![
            drawn_towards_centre(by, circle_at(p.theta_start.value(), env)),
            drawn_towards_centre(by, circle_at(p.theta_end.value(), env)),
        ]
    }
}

proof fn box_of_one(u: UnitPoint, env: Env)
    ensures
        is_box_of(extent_of(u), seq![place_of(u, env)], env),
{
    reveal(is_box_of);
    let s = seq![place_of(u, env)];
    assert(s[0] == place_of(u, env));
}

proof fn box_of_more(b: Extent, points: Seq<(real, real)>, u: UnitPoint, env: Env)
    requires
        is_box_of(b, points, env),
    ensures
        is_box_of(extend(b, u), points.push(place_of(u, env)), env),
{
    reveal(is_box_of);
    let e = extend(b, u);
    let s = points.push(place_of(u, env));
    let n = points.len() as int;
    assert(value(e.min_x, env) == real_min(value(b.min_x, env), value(u.x, env)));
    assert(value(e.min_y, env) == real_min(value(b.min_y, env), value(u.y, env)));
    assert(value(e.max_x, env) == real_max(value(b.max_x, env), value(u.x, env)));
    assert(value(e.max_y, env) == real_max(value(b.max_y, env), value(u.y, env)));
    assert(s[n] == place_of(u, env));
    assert forall|i: int| 0 <= i < s.len() implies ({
        &&& value(e.min_x, env) <= (#[trigger] s[i]).0 <= value(e.max_x, env)
        &&& value(e.min_y, env) <= s[i].1 <= value(e.max_y, env)
    }) by {
        if i < n {
            assert(s[i] == points[i]);
        }
    }
    let a = choose|i: int| 0 <= i < n && (#[trigger] points[i]).0 == value(b.min_x, env);
    let c = choose|i: int| 0 <= i < n && (#[trigger] points[i]).0 == value(b.max_x, env);
    let d = choose|i: int| 0 <= i < n && (#[trigger] points[i]).1 == value(b.min_y, env);
    let f = choose|i: int| 0 <= i < n && (#[trigger] points[i]).1 == value(b.max_y, env);
    assert(s[a] == points[a] && s[c] == points[c] && s[d] == points[d] && s[f] == points[f]);
}

proof fn box_of_more_where(b: Extent, points: Seq<(real, real)>, c: Cond, u: UnitPoint, env: Env)
    requires
        is_box_of(b, points, env),
    ensures
        is_box_of(
            extend_where(b, c, u),
            if holds(c, env) {
                points.push(place_of(u, env))
            } else {
                points
            },
            env,
        ),
{
    reveal(is_box_of);
    box_of_more(b, points, u, env);
    let e = extend(b, u);
    let w = extend_where(b, c, u);
    let kept = if holds(c, env) {
        e
    } else {
        b
    };
    assert(value(w.min_x, env) == value(kept.min_x, env));
    assert(value(w.min_y, env) == value(kept.min_y, env));
    assert(value(w.max_x, env) == value(kept.max_x, env));
    assert(value(w.max_y, env) == value(kept.max_y, env));
}

proof fn breaks_lie_on_the_circle(p: PolarProjection, i: int, env: Env)
    requires
        0 <= i < p.theta_break_fracs.count(),
    ensures
        place_of(p.break_point(i), env) == circle_at(
            angle(p, break_at(p.theta_break_fracs, i)),
            env,
        ),
        place_of(drawn_in(p.inner_radius_frac, p.break_point(i)), env) == drawn_towards_centre(
            p.inner_radius_frac.value(),
            circle_at(angle(p, break_at(p.theta_break_fracs, i)), env),
        ),
{
    let f = p.theta_break_fracs.frac(i);
    assert(value(f, env) == break_at(p.theta_break_fracs, i));
    angles_are_fractions_of_the_sweep(p, f, env);
    drawn_in_is_nearer(p.inner_radius_frac, p.break_point(i), env);
}

proof fn drawn_in_is_nearer(by: Num, u: UnitPoint, env: Env)
    ensures
        place_of(drawn_in(by, u), env) == drawn_towards_centre(by.value(), place_of(u, env)),
{
    assert(value(Expr::Lit(by), env) == by.value());
}

proof fn box_of_breaks(p: PolarProjection, n: nat, env: Env)
    requires
        1 <= n <= p.theta_break_fracs.count(),
    ensures
        is_box_of(
            p.breaks_extent(n),
            Seq::new(
                n,
                |i: int| circle_at(angle(p, break_at(p.theta_break_fracs, i)), env),
            ),
            env,
        ),
    decreases n,
{
    let all = Seq::new(n, |i: int| circle_at(angle(p, break_at(p.theta_break_fracs, i)), env));
    breaks_lie_on_the_circle(p, n - 1, env);
    if n == 1 {
        box_of_one(p.break_point(0), env);
        assert(all =~= seq![place_of(p.break_point(0), env)]);
    } else {
        let m = (n - 1) as nat;
        let before = Seq::new(
            m,
            |i: int| circle_at(angle(p, break_at(p.theta_break_fracs, i)), env),
        );
        box_of_breaks(p, m, env);
        box_of_more(p.breaks_extent(m), before, p.break_point(n - 1), env);
        assert(all =~= before.push(place_of(p.break_point(n - 1), env)));
    }
}

proof fn box_of_hole(p: PolarProjection, b: Extent, points: Seq<(real, real)>, n: nat, env: Env)
    requires
        n <= p.theta_break_fracs.count(),
        is_box_of(b, points, env),
    ensures
        is_box_of(
            p.inner_breaks_extent(b, n),
            points + Seq::new(
                n,
                |i: int|
                    drawn_towards_centre(
                        p.inner_radius_frac.value(),
                        circle_at(angle(p, break_at(p.theta_break_fracs, i)), env),
                    ),
            ),
            env,
        ),
    decreases n,
{
    let by = p.inner_radius_frac.value();
    let f = |i: int|
        drawn_towards_centre(by, circle_at(angle(p, break_at(p.theta_break_fracs, i)), env));
    if n == 0 {
        assert(points + Seq::new(n, f) =~= points);
    } else {
        let m = (n - 1) as nat;
        box_of_hole(p, b, points, m, env);
        breaks_lie_on_the_circle(p, n - 1, env);
        let u = drawn_in(p.inner_radius_frac, p.break_point(n - 1));
        box_of_more(p.inner_breaks_extent(b, m), points + Seq::new(m, f), u, env);
        assert((points + Seq::new(m, f)).push(place_of(u, env)) =~= points + Seq::new(n, f));
    }
}

proof fn sweeps_pass_by(p: PolarProjection, target: Expr, k: i64, env: Env)
    ensures
        holds(
            c_in_sweep_by(
                target,
                Expr::Lit(p.theta_start),
                e_sub(Expr::Lit(p.theta_end), Expr::Lit(p.theta_start)),
                k,
            ),
            env,
        ) == is_swept_after(p, value(target, env), k as int),
{
    let start = Expr::Lit(p.theta_start);
    let end = Expr::Lit(p.theta_end);
    let span = e_sub(end, start);
    let turn = Expr::Lit(Num { bits: FULL_TURN });
    let turned = taken_round(target, k);
    let along = e_sub(turned, start);
    let t = e_div(along, span);
    assert(value(start, env) == p.theta_start.value());
    assert(value(end, env) == p.theta_end.value());
    assert(value(span, env) == p.theta_end.value() - p.theta_start.value());
    assert(value(turn, env) == (Num { bits: FULL_TURN }).value());
    assert(value(e_int(k), env) == k as real) by {
        assert((k as real) / 1real == k as real);
    }
    assert(value(e_mul(e_int(k), turn), env) == (k as real) * value(turn, env));
    assert(value(turned, env) == value(target, env) + (k as real) * value(turn, env));
    assert(value(along, env) == value(turned, env) - value(start, env));
    assert(value(t, env) == value(along, env) / value(span, env));
    assert(value(e_int(0), env) == 0real && value(e_int(1), env) == 1real) by {
        assert(0real / 1real == 0real && 1real / 1real == 1real);
    }
    let narrow = c_within(span, 1_000_000_000_000);
    assert(value(Expr::Abs(Arc::new(span)), env) == real_abs(value(span, env)));
    assert(value(Expr::Abs(Arc::new(along)), env) == real_abs(value(along, env)));
    assert(value(Expr::Ratio(1, 1_000_000_000_000), env) == 1real / 1_000_000_000_000real);
    assert(value(Expr::Ratio(1, 1_000_000_000), env) == 1real / 1_000_000_000real);
    assert(holds(narrow, env) == (real_abs(value(span, env)) < 1real / 1_000_000_000_000real));
    let near = c_within(along, 1_000_000_000);
    assert(holds(near, env) == (real_abs(value(along, env)) < 1real / 1_000_000_000real));
    let low = c_ge(t, e_int(0));
    let high = c_ge(e_int(1), t);
    assert(holds(low, env) == (value(t, env) >= 0real));
    assert(holds(high, env) == (1real >= value(t, env)));
    assert(holds(c_and(low, high), env) == (holds(low, env) && holds(high, env)));
    assert(holds(c_not(narrow), env) == !holds(narrow, env));
    assert(holds(c_and(c_not(narrow), c_and(low, high)), env) == (!holds(narrow, env) && holds(
        c_and(low, high),
        env,
    )));
    assert(holds(c_and(narrow, near), env) == (holds(narrow, env) && holds(near, env)));
}

/// An angle lies within the sweep if the sweep passes it.
pub proof fn angles_within_the_sweep_are_passed(p: PolarProjection, target: Expr, env: Env)
    ensures
        holds(
            c_in_sweep(target, Expr::Lit(p.theta_start), Expr::Lit(p.theta_end)),
            env,
        ) == is_swept(p, value(target, env)),
{
    let start = Expr::Lit(p.theta_start);
    let span = e_sub(Expr::Lit(p.theta_end), start);
    let theta = value(target, env);
    sweeps_pass_by(p, target, (-2int) as i64, env);
    sweeps_pass_by(p, target, (-1int) as i64, env);
    sweeps_pass_by(p, target, 0, env);
    sweeps_pass_by(p, target, 1, env);
    sweeps_pass_by(p, target, 2, env);
    let c5 = c_in_sweep_by(target, start, span, 2);
    let c4 = c_or(c_in_sweep_by(target, start, span, 1), c5);
    let c3 = c_or(c_in_sweep_by(target, start, span, 0), c4);
    let c2 = c_or(c_in_sweep_by(target, start, span, (-1int) as i64), c3);
    assert(holds(c4, env) == (is_swept_after(p, theta, 1) || is_swept_after(p, theta, 2)));
    assert(holds(c3, env) == (is_swept_after(p, theta, 0) || holds(c4, env)));
    assert(holds(c2, env) == (is_swept_after(p, theta, -1) || holds(c3, env)));
    if is_swept(p, theta) {
        let m = choose|m: int| -2 <= m <= 2 && #[trigger] is_swept_after(p, theta, m);
        assert(m == -2 || m == -1 || m == 0 || m == 1 || m == 2);
    }
}

proof fn box_of_quarter(
    p: PolarProjection,
    b: Extent,
    points: Seq<(real, real)>,
    n: nat,
    env: Env,
)
    requires
        1 <= n <= 5,
        is_box_of(b, points + quarters_swept(p, (n - 1) as nat, env), env),
    ensures
        is_box_of(p.with_quarter(b, (n - 3) as i64), points + quarters_swept(p, n, env), env),
{
    let k = (n - 3) as i64;
    let quarter = Expr::Lit(Num { bits: QUARTER_TURN });
    let target = e_mul(e_int(k), quarter);
    assert(value(quarter, env) == (Num { bits: QUARTER_TURN }).value());
    assert(value(e_int(k), env) == k as real) by {
        assert((k as real) / 1real == k as real);
    }
    let theta = (k as real) * (Num { bits: QUARTER_TURN }).value();
    assert(value(target, env) == theta);
    angles_within_the_sweep_are_passed(p, target, env);
    let before = quarters_swept(p, (n - 1) as nat, env);
    let c = c_in_sweep(target, Expr::Lit(p.theta_start), Expr::Lit(p.theta_end));
    box_of_more_where(b, points + before, c, on_circle(target), env);
    assert((points + before).push(circle_at(theta, env)) =~= points + before.push(
        circle_at(theta, env),
    ));
}

proof fn rims_are_boxed(p: PolarProjection, env: Env)
    ensures
        is_box_of(p.outer_extent(), rim_points(p, env), env),
{
    let start = p.start_point();
    let end = p.end_point();
    assert(value(Expr::Lit(p.theta_start), env) == p.theta_start.value());
    assert(value(Expr::Lit(p.theta_end), env) == p.theta_end.value());
    assert(place_of(start, env) == circle_at(p.theta_start.value(), env));
    assert(place_of(end, env) == circle_at(p.theta_end.value(), env));
    let b = p.theta_break_fracs;
    if p.is_polygon() {
        let corners = Seq::new(b.count(), |i: int| circle_at(angle(p, break_at(b, i)), env));
        let partial = c_not(p.c_full_circle());
        assert(holds(partial, env) == !holds(p.c_full_circle(), env));
        box_of_breaks(p, b.count(), env);
        let first = p.breaks_extent(b.count());
        box_of_more_where(first, corners, partial, start, env);
        let more = if holds(partial, env) {
            corners.push(place_of(start, env))
        } else {
            corners
        };
        box_of_more_where(extend_where(first, partial, start), more, partial, end, env);
    } else {
        let ends = extend(extent_of(start), end);
        let two = seq![place_of(start, env), place_of(end, env)];
        box_of_one(start, env);
        box_of_more(extent_of(start), seq![place_of(start, env)], end, env);
        assert(seq![place_of(start, env)].push(place_of(end, env)) =~= two);
        assert(two + quarters_swept(p, 0, env) =~= two);
        let b1 = p.with_quarter(ends, (-2int) as i64);
        let b2 = p.with_quarter(b1, (-1int) as i64);
        let b3 = p.with_quarter(b2, 0);
        let b4 = p.with_quarter(b3, 1);
        box_of_quarter(p, ends, two, 1, env);
        box_of_quarter(p, b1, two, 2, env);
        box_of_quarter(p, b2, two, 3, env);
        box_of_quarter(p, b3, two, 4, env);
        box_of_quarter(p, b4, two, 5, env);
    }
}

/// The region that is fitted into the panel is the smallest box around the
/// points that tell how far the sweep reaches: the corners of the polygon, or the
/// ends of the arc and the quarter turns it passes, and the hole or the centre.
pub proof fn swept_regions_are_boxed(p: PolarProjection, env: Env)
    ensures
        is_box_of(p.extent(), rim_points(p, env) + hole_points(p, env), env),
{
    let start = p.start_point();
    let end = p.end_point();
    let by = p.inner_radius_frac;
    assert(value(Expr::Lit(p.theta_start), env) == p.theta_start.value());
    assert(value(Expr::Lit(p.theta_end), env) == p.theta_end.value());
    assert(place_of(start, env) == circle_at(p.theta_start.value(), env));
    assert(place_of(end, env) == circle_at(p.theta_end.value(), env));
    drawn_in_is_nearer(by, start, env);
    drawn_in_is_nearer(by, end, env);
    let b = p.theta_break_fracs;
    let outer = p.outer_extent();
    let rim = rim_points(p, env);
    rims_are_boxed(p, env);
    if by.above_zero() {
        if p.is_polygon() {
            box_of_hole(p, outer, rim, b.count(), env);
        } else {
            let inner_start = drawn_in(by, start);
            let inner_end = drawn_in(by, end);
            box_of_more(outer, rim, inner_start, env);
            box_of_more(extend(outer, inner_start), rim.push(place_of(inner_start, env)), inner_end, env);
            assert(rim.push(place_of(inner_start, env)).push(place_of(inner_end, env)) =~= rim
                + hole_points(p, env));
        }
    } else {
        let centre = UnitPoint { x: e_int(0), y: e_int(0) };
        assert(value(e_int(0), env) == 0real) by {
            assert(0real / 1real == 0real);
        }
        box_of_more(outer, rim, centre, env);
        assert(rim.push(place_of(centre, env)) =~= rim + hole_points(p, env));
    }
}

/// Whether the panel is neither flat nor turned inside out.
pub open spec fn panel_has_room(env: Env) -> bool {
    &&& (env.var)(Quantity::PanelX0) < (env.var)(Quantity::PanelX1)
    &&& (env.var)(Quantity::PanelY0) < (env.var)(Quantity::PanelY1)
}

/// What part of the largest radius the disk has.
pub open spec fn part_of_radius(p: PolarProjection) -> real {
    match p.outer_radius_frac {
        Some(f) => f.value(),
        None => 1real,
    }
}

proof fn panel_sides(env: Env)
    ensures
        ({
            let w = (env.var)(Quantity::PanelX1) - (env.var)(Quantity::PanelX0);
            let h = (env.var)(Quantity::PanelY1) - (env.var)(Quantity::PanelY0);
            &&& value(e_max(e_panel_w(), e_int(0)), env) == real_max(w, 0real)
            &&& value(e_max(e_panel_h(), e_int(0)), env) == real_max(h, 0real)
            &&& holds(c_has_room(), env) == panel_has_room(env)
        }),
        value(e_int(0), env) == 0real,
        value(e_int(1), env) == 1real,
        value(e_half(), env) == 1real / 2real,
{
    assert(0real / 1real == 0real && 1real / 1real == 1real);
    assert(value(e_int(0), env) == 0real && value(e_int(1), env) == 1real);
    let x0 = Expr::Var(Quantity::PanelX0);
    let x1 = Expr::Var(Quantity::PanelX1);
    let y0 = Expr::Var(Quantity::PanelY0);
    let y1 = Expr::Var(Quantity::PanelY1);
    assert(value(x0, env) == (env.var)(Quantity::PanelX0));
    assert(value(x1, env) == (env.var)(Quantity::PanelX1));
    assert(value(y0, env) == (env.var)(Quantity::PanelY0));
    assert(value(y1, env) == (env.var)(Quantity::PanelY1));
    assert(value(e_panel_w(), env) == value(x1, env) - value(x0, env));
    assert(value(e_panel_h(), env) == value(y1, env) - value(y0, env));
    let w = e_max(e_panel_w(), e_int(0));
    let h = e_max(e_panel_h(), e_int(0));
    assert(value(w, env) == real_max(value(e_panel_w(), env), 0real));
    assert(value(h, env) == real_max(value(e_panel_h(), env), 0real));
    assert(holds(c_gt(w, e_int(0)), env) == (value(w, env) > 0real));
    assert(holds(c_gt(h, e_int(0)), env) == (value(h, env) > 0real));
}

proof fn radii_are_parts(p: PolarProjection, m: Expr, env: Env)
    ensures
        ({
            let part = match p.outer_radius_frac {
                Some(f) => Expr::Lit(f),
                None => e_int(1),
            };
            let r = e_mul(m, part);
            &&& value(r, env) == value(m, env) * part_of_radius(p)
            &&& value(e_mul(r, Expr::Lit(p.inner_radius_frac)), env) == value(m, env)
                * part_of_radius(p) * p.inner_radius_frac.value()
        }),
{
    assert(value(e_int(1), env) == 1real) by {
        assert(1real / 1real == 1real);
    }
    let part = match p.outer_radius_frac {
        Some(f) => Expr::Lit(f),
        None => e_int(1),
    };
    assert(value(part, env) == part_of_radius(p));
    let r = e_mul(m, part);
    assert(value(r, env) == value(m, env) * part_of_radius(p));
    let inner = Expr::Lit(p.inner_radius_frac);
    assert(value(e_mul(r, inner), env) == value(r, env) * value(inner, env));
    assert(value(Expr::Lit(p.inner_radius_frac), env) == p.inner_radius_frac.value());
}

/// In a panel without room the disk is a point in its corner.
pub proof fn disks_need_room(p: PolarProjection, env: Env)
    requires
        !panel_has_room(env),
    ensures
        value(p.geometry_of().cx, env) == (env.var)(Quantity::PanelX0),
        value(p.geometry_of().cy, env) == (env.var)(Quantity::PanelY0),
        value(p.geometry_of().r_outer, env) == 0real,
        value(p.geometry_of().r_inner, env) == 0real,
{
    panel_sides(env);
    assert(value(Expr::Var(Quantity::PanelX0), env) == (env.var)(Quantity::PanelX0));
    assert(value(Expr::Var(Quantity::PanelY0), env) == (env.var)(Quantity::PanelY0));
}

/// A disk that is not fitted keeps to the middle of the panel and reaches to its
/// nearer sides, or as much of the way as it was told to. The hole is a part of
/// the disk.
pub proof fn disks_keep_to_the_middle(p: PolarProjection, env: Env)
    requires
        !p.fit_to_bbox,
        panel_has_room(env),
    ensures
        ({
            let x0 = (env.var)(Quantity::PanelX0);
            let x1 = (env.var)(Quantity::PanelX1);
            let y0 = (env.var)(Quantity::PanelY0);
            let y1 = (env.var)(Quantity::PanelY1);
            let g = p.geometry_of();
            let r = value(g.r_outer, env);
            &&& value(g.cx, env) - x0 == x1 - value(g.cx, env)
            &&& value(g.cy, env) - y0 == y1 - value(g.cy, env)
            &&& r == real_min(x1 - x0, y1 - y0) / 2real * part_of_radius(p)
            &&& value(g.r_inner, env) == r * p.inner_radius_frac.value()
        }),
{
    panel_sides(env);
    let x0 = Expr::Var(Quantity::PanelX0);
    let y0 = Expr::Var(Quantity::PanelY0);
    let w = e_max(e_panel_w(), e_int(0));
    let h = e_max(e_panel_h(), e_int(0));
    let a = value(w, env);
    let b = value(h, env);
    assert(value(x0, env) == (env.var)(Quantity::PanelX0));
    assert(value(y0, env) == (env.var)(Quantity::PanelY0));
    let n = p.natural_geometry();
    let g = p.geometry_of();
    assert(value(g.cx, env) == value(n.cx, env));
    assert(value(g.cy, env) == value(n.cy, env));
    assert(value(g.r_outer, env) == value(n.r_outer, env));
    assert(value(g.r_inner, env) == value(n.r_inner, env));
    assert(value(e_mul(w, e_half()), env) == a * (1real / 2real));
    assert(value(e_mul(h, e_half()), env) == b * (1real / 2real));
    assert(value(n.cx, env) == value(x0, env) + a * (1real / 2real));
    assert(value(n.cy, env) == value(y0, env) + b * (1real / 2real));
    let m = e_mul(e_min(w, h), e_half());
    assert(value(e_min(w, h), env) == real_min(a, b));
    assert(value(m, env) == real_min(a, b) * (1real / 2real));
    radii_are_parts(p, m, env);
    let c = real_min(a, b);
    assert(c * (1real / 2real) == c / 2real) by (nonlinear_arith);
    assert(a * (1real / 2real) + a * (1real / 2real) == a) by (nonlinear_arith);
    assert(b * (1real / 2real) + b * (1real / 2real) == b) by (nonlinear_arith);
}

/// The width of the swept region, on a disk of radius one.
pub open spec fn region_width(p: PolarProjection, env: Env) -> real {
    value(p.extent().max_x, env) - value(p.extent().min_x, env)
}

/// The height of the swept region, on a disk of radius one.
pub open spec fn region_height(p: PolarProjection, env: Env) -> real {
    value(p.extent().max_y, env) - value(p.extent().min_y, env)
}

/// Whether the swept region is more than a line.
pub open spec fn region_is_open(p: PolarProjection, env: Env) -> bool {
    &&& region_width(p, env) >= 1real / 0x10_0000_0000_0000int as real
    &&& region_height(p, env) >= 1real / 0x10_0000_0000_0000int as real
}

/// A disk that is fitted is as large as leaves the swept region within the panel:
/// the region is centred both ways, and one way it leaves no margin. It reaches as
/// much of the way as it was told to, and the hole is a part of it.
pub proof fn swept_regions_fill_the_panel(p: PolarProjection, env: Env) -> (m: real)
    requires
        p.fit_to_bbox,
        panel_has_room(env),
        region_is_open(p, env),
    ensures
        ({
            let x0 = (env.var)(Quantity::PanelX0);
            let x1 = (env.var)(Quantity::PanelX1);
            let y0 = (env.var)(Quantity::PanelY0);
            let y1 = (env.var)(Quantity::PanelY1);
            let g = p.geometry_of();
            let b = p.extent();
            let left = value(g.cx, env) + m * value(b.min_x, env) - x0;
            let right = x1 - (value(g.cx, env) + m * value(b.max_x, env));
            let top = value(g.cy, env) - m * value(b.max_y, env) - y0;
            let bottom = y1 - (value(g.cy, env) - m * value(b.min_y, env));
            &&& 0real < m
            &&& left == right && left >= 0real
            &&& top == bottom && top >= 0real
            &&& left == 0real || top == 0real
            &&& value(g.r_outer, env) == m * part_of_radius(p)
            &&& value(g.r_inner, env) == m * part_of_radius(p) * p.inner_radius_frac.value()
        }),
{
    panel_sides(env);
    let x0 = Expr::Var(Quantity::PanelX0);
    let y0 = Expr::Var(Quantity::PanelY0);
    let w = e_max(e_panel_w(), e_int(0));
    let h = e_max(e_panel_h(), e_int(0));
    let wv = value(w, env);
    let hv = value(h, env);
    assert(value(x0, env) == (env.var)(Quantity::PanelX0));
    assert(value(y0, env) == (env.var)(Quantity::PanelY0));
    let b = p.extent();
    let tiny = Expr::Ratio(1, 0x10_0000_0000_0000);
    let a = value(b.min_x, env);
    let c = value(b.min_y, env);
    let bwv = region_width(p, env);
    let bhv = region_height(p, env);
    let bw = e_max(e_sub(b.max_x, b.min_x), tiny);
    let bh = e_max(e_sub(b.max_y, b.min_y), tiny);
    assert(value(tiny, env) == 1real / 0x10_0000_0000_0000int as real);
    assert(0real < 1real / 0x10_0000_0000_0000int as real) by (nonlinear_arith);
    assert(value(e_sub(b.max_x, b.min_x), env) == bwv);
    assert(value(e_sub(b.max_y, b.min_y), env) == bhv);
    assert(value(bw, env) == bwv);
    assert(value(bh, env) == bhv);
    let across = e_div(w, bw);
    let up = e_div(h, bh);
    assert(value(across, env) == wv / bwv);
    assert(value(up, env) == hv / bhv);
    let scale = e_min(across, up);
    let m = value(scale, env);
    assert(m == real_min(wv / bwv, hv / bhv));
    let sw = e_mul(bw, scale);
    let sh = e_mul(bh, scale);
    assert(value(sw, env) == bwv * m);
    assert(value(sh, env) == bhv * m);
    let n = p.natural_geometry();
    let g = p.geometry_of();
    assert(value(g.cx, env) == value(n.cx, env));
    assert(value(g.cy, env) == value(n.cy, env));
    assert(value(g.r_outer, env) == value(n.r_outer, env));
    assert(value(g.r_inner, env) == value(n.r_inner, env));
    radii_are_parts(p, scale, env);
    assert(value(e_sub(w, sw), env) == wv - bwv * m);
    assert(value(e_sub(h, sh), env) == hv - bhv * m);
    let mx = e_mul(e_sub(w, sw), e_half());
    let my = e_mul(e_sub(h, sh), e_half());
    assert(value(mx, env) == (wv - bwv * m) * (1real / 2real));
    assert(value(my, env) == (hv - bhv * m) * (1real / 2real));
    assert(value(e_neg(b.min_x), env) == 0real - a);
    assert(value(e_neg(b.min_y), env) == 0real - c);
    let fx = e_div(e_neg(b.min_x), bw);
    let fy = e_div(e_neg(b.min_y), bh);
    assert(value(fx, env) == (0real - a) / bwv);
    assert(value(fy, env) == (0real - c) / bhv);
    let gx = e_mul(fx, sw);
    let gy = e_mul(e_sub(e_int(1), fy), sh);
    assert(value(gx, env) == value(fx, env) * (bwv * m));
    assert(value(e_sub(e_int(1), fy), env) == 1real - value(fy, env));
    assert(value(gy, env) == (1real - value(fy, env)) * (bhv * m));
    assert(value(e_add(x0, mx), env) == value(x0, env) + value(mx, env));
    assert(value(e_add(y0, my), env) == value(y0, env) + value(my, env));
    assert(value(n.cx, env) == value(x0, env) + value(mx, env) + value(gx, env));
    assert(value(n.cy, env) == value(y0, env) + value(my, env) + value(gy, env));
    let q = wv / bwv;
    let r = hv / bhv;
    assert(q * bwv == wv && q > 0real) by (nonlinear_arith)
        requires
            q == wv / bwv,
            bwv > 0real,
            wv > 0real,
    ;
    assert(r * bhv == hv && r > 0real) by (nonlinear_arith)
        requires
            r == hv / bhv,
            bhv > 0real,
            hv > 0real,
    ;
    assert(bwv * m <= wv && (m == q ==> bwv * m == wv)) by (nonlinear_arith)
        requires
            m <= q,
            q * bwv == wv,
            bwv > 0real,
    ;
    assert(bhv * m <= hv && (m == r ==> bhv * m == hv)) by (nonlinear_arith)
        requires
            m <= r,
            r * bhv == hv,
            bhv > 0real,
    ;
    let u = (0real - a) / bwv;
    assert(u * (bwv * m) == 0real - m * a) by (nonlinear_arith)
        requires
            u == (0real - a) / bwv,
            bwv > 0real,
    ;
    let v = (0real - c) / bhv;
    assert((1real - v) * (bhv * m) == bhv * m + m * c) by (nonlinear_arith)
        requires
            v == (0real - c) / bhv,
            bhv > 0real,
    ;
    let max_x = value(b.max_x, env);
    let max_y = value(b.max_y, env);
    assert(m * max_x == m * a + bwv * m) by (nonlinear_arith)
        requires
            bwv == max_x - a,
    ;
    assert(m * max_y == m * c + bhv * m) by (nonlinear_arith)
        requires
            bhv == max_y - c,
    ;
    let s = wv - bwv * m;
    let t = hv - bhv * m;
    assert(s * (1real / 2real) + s * (1real / 2real) == s) by (nonlinear_arith);
    assert(t * (1real / 2real) + t * (1real / 2real) == t) by (nonlinear_arith);
    m
}

/// A point lies as far from the centre as its second fraction says, between the
/// hole and the outer edge, in the direction of its first. Up is towards the top
/// of the panel.
pub proof fn points_go_round_and_outward(p: PolarProjection, a: Expr, b: Expr, env: Env)
    ensures
        ({
            let g = p.geometry_of();
            let inner = value(g.r_inner, env);
            let r = inner + value(b, env) * (value(g.r_outer, env) - inner);
            let u = p.unit_point(a);
            let at = p.projected(a, b);
            &&& value(at.x, env) == value(g.cx, env) + r * value(u.x, env)
            &&& value(at.y, env) == value(g.cy, env) - r * value(u.y, env)
            &&& p.edge_style == PolarEdgeStyle::Geodesic || p.theta_break_fracs.count() == 0
                ==> is_on_circle(u, angle(p, value(a, env)), env)
        }),
{
    let g = p.geometry_of();
    let u = p.unit_point(a);
    let d = e_sub(g.r_outer, g.r_inner);
    assert(value(d, env) == value(g.r_outer, env) - value(g.r_inner, env));
    assert(value(e_mul(b, d), env) == value(b, env) * value(d, env));
    let r = e_add(g.r_inner, e_mul(b, d));
    assert(value(r, env) == value(g.r_inner, env) + value(b, env) * value(d, env));
    assert(value(e_mul(r, u.x), env) == value(r, env) * value(u.x, env));
    assert(value(e_mul(r, u.y), env) == value(r, env) * value(u.y, env));
    angles_are_fractions_of_the_sweep(p, a, env);
}

/// At the outer edge, a break leads to the circle: as far from the centre as the
/// disk reaches, at the angle of the break.
pub proof fn breaks_lead_to_the_outer_circle(p: PolarProjection, i: int, a: Expr, b: Expr, env: Env)
    requires
        are_numbers(p.theta_break_fracs),
        0 <= i < p.theta_break_fracs.count(),
        value(a, env) == break_at(p.theta_break_fracs, i),
        value(b, env) == 1real,
    ensures
        ({
            let g = p.geometry_of();
            let theta = angle(p, break_at(p.theta_break_fracs, i));
            let r = value(g.r_outer, env);
            let at = p.projected(a, b);
            &&& value(at.x, env) == value(g.cx, env) + r * (env.cos)(theta)
            &&& value(at.y, env) == value(g.cy, env) - r * (env.sin)(theta)
        }),
{
    points_go_round_and_outward(p, a, b, env);
    if p.edge_style == PolarEdgeStyle::Chord {
        polygons_meet_the_circle_at_breaks(p, i, a, env);
    }
    let x = value(p.geometry_of().r_inner, env);
    let y = value(p.geometry_of().r_outer, env);
    assert(x + 1real * (y - x) == y) by (nonlinear_arith);
}

proof fn edges_join_corners(
    p: PolarProjection,
    t: Expr,
    k: int,
    rest: UnitPoint,
    x: real,
    y: real,
    w: real,
    env: Env,
) -> (r: (real, real, real))
    requires
        are_numbers(p.theta_break_fracs),
        ({
            let ends = !holds(p.c_full_circle(), env);
            let n = corner_count(p, ends);
            let f = value(some_corner(p, ends, k).frac, env);
            let l = value(some_corner(p, ends, n - 1).frac, env);
            &&& 0 <= k < n
            &&& value(t, env) < f || value(t, env) > l || value(t, env) == f && f == l ==> {
                &&& has_corner_at(p, x, env)
                &&& has_corner_at(p, y, env)
                &&& 0real <= w <= 1real
                &&& is_on_chord(rest, angle(p, x), angle(p, y), w, env)
            }
        }),
    ensures
        has_corner_at(p, r.0, env),
        has_corner_at(p, r.1, env),
        0real <= r.2 <= 1real,
        ({
            let ends = !holds(p.c_full_circle(), env);
            is_on_chord(
                p.on_edges(t, corner_count(p, ends), k, ends, rest),
                angle(p, r.0),
                angle(p, r.1),
                r.2,
                env,
            )
        }),
    decreases corner_count(p, !holds(p.c_full_circle(), env)) - k,
{
    let ends = !holds(p.c_full_circle(), env);
    let n = corner_count(p, ends);
    if k + 1 < n {
        let lo = some_corner(p, ends, k);
        let hi = some_corner(p, ends, k + 1);
        let a = value(lo.frac, env);
        let b = value(hi.frac, env);
        let c = value(t, env);
        corners_rise(p, ends, k, k + 1, env);
        corners_rise(p, ends, k + 1, n - 1, env);
        edges_reach(lo.frac, hi.frac, t, env);
        if a <= c <= b && a < b {
            let u = e_div(e_sub(t, lo.frac), e_sub(hi.frac, lo.frac));
            mixtures_are_weighted(lo.at, hi.at, u, env);
            corners_are_on_the_circle(p, ends, k, env);
            corners_are_on_the_circle(p, ends, k + 1, env);
            corners_are_breaks(p, k, env);
            corners_are_breaks(p, k + 1, env);
            let q = (c - a) / (b - a);
            assert(0real <= q <= 1real) by (nonlinear_arith)
                requires
                    q == (c - a) / (b - a),
                    a <= c <= b,
                    a < b,
            ;
            (a, b, q)
        } else {
            edges_join_corners(p, t, k + 1, rest, x, y, w, env)
        }
    } else {
        (x, y, w)
    }
}

/// Within the sweep, every point of the polygon lies on a chord between two of
/// its corners, none of it beyond them.
pub proof fn polygons_are_made_of_chords(p: PolarProjection, t: Expr, env: Env) -> (r: (
    real,
    real,
    real,
))
    requires
        p.edge_style == PolarEdgeStyle::Chord,
        are_numbers(p.theta_break_fracs),
        p.theta_break_fracs.count() > 0,
        0real <= value(t, env) <= 1real,
        forall|i: int|
            0 <= i < p.theta_break_fracs.count() ==> 0real <= #[trigger] break_at(
                p.theta_break_fracs,
                i,
            ) <= 1real,
    ensures
        has_corner_at(p, r.0, env),
        has_corner_at(p, r.1, env),
        0real <= r.2 <= 1real,
        is_on_chord(p.unit_point(t), angle(p, r.0), angle(p, r.1), r.2, env),
{
    let ends = !holds(p.c_full_circle(), env);
    let n = corner_count(p, ends);
    let first = some_corner(p, ends, 0);
    let last = some_corner(p, ends, n - 1);
    let f = value(first.frac, env);
    let l = value(last.frac, env);
    let z = value(t, env);
    corners_rise(p, ends, 0, n - 1, env);
    corners_are_breaks(p, 0, env);
    corners_are_breaks(p, n - 1, env);
    corners_are_on_the_circle(p, ends, 0, env);
    corners_are_on_the_circle(p, ends, n - 1, env);
    if ends {
        let rest = either(c_gt(first.frac, t), first.at, last.at);
        let x = if f > z {
            f
        } else {
            l
        };
        let cx = (env.cos)(angle(p, x));
        let sx = (env.sin)(angle(p, x));
        assert(cx * (1real - 0real) + cx * 0real == cx) by (nonlinear_arith);
        assert(sx * (1real - 0real) + sx * 0real == sx) by (nonlinear_arith);
        assert(holds(c_gt(first.frac, t), env) == (f > z));
        assert(value(rest.x, env) == cx && value(rest.y, env) == sx);
        edges_join_corners(p, t, 0, rest, x, x, 0real, env)
    } else {
        let one = e_int(1);
        assert(value(one, env) == 1real) by {
            assert(1real / 1real == 1real);
        }
        let left = e_sub(one, last.frac);
        assert(value(left, env) == 1real - l);
        let total = e_add(left, first.frac);
        let d = 1real - l + f;
        assert(value(total, env) == d);
        assert(value(e_sub(t, last.frac), env) == z - l);
        assert(value(e_add(left, t), env) == 1real - l + z);
        let after = e_div(e_sub(t, last.frac), total);
        let before = e_div(e_add(left, t), total);
        assert(value(after, env) == (z - l) / d);
        assert(value(before, env) == (1real - l + z) / d);
        assert(holds(c_ge(t, last.frac), env) == (z >= l));
        let u = e_select(c_ge(t, last.frac), after, before);
        let rest = mixed(last.at, first.at, u);
        mixtures_are_weighted(last.at, first.at, u, env);
        let gone = if z >= l {
            z - l
        } else {
            1real - l + z
        };
        let w = gone / d;
        assert(value(u, env) == w);
        if z < f || z > l || z == f && f == l {
            assert(0real <= w <= 1real) by (nonlinear_arith)
                requires
                    w == gone / d,
                    d > 0real,
                    0real <= gone <= d,
            ;
        }
        edges_join_corners(p, t, 0, rest, l, f, w, env)
    }
}

proof fn mixtures_stay_between(lo: real, hi: real, a: real, b: real, w: real)
    requires
        lo <= a <= hi,
        lo <= b <= hi,
        0real <= w <= 1real,
    ensures
        lo <= a * (1real - w) + b * w <= hi,
{
    assert(lo <= a * (1real - w) + b * w <= hi) by (nonlinear_arith)
        requires
            lo <= a <= hi,
            lo <= b <= hi,
            0real <= w <= 1real,
    ;
}

/// Whether a point lies in the box around the swept region.
spec fn is_boxed(p: PolarProjection, q: (real, real), env: Env) -> bool {
    let b = p.extent();
    &&& value(b.min_x, env) <= q.0 <= value(b.max_x, env)
    &&& value(b.min_y, env) <= q.1 <= value(b.max_y, env)
}

proof fn corners_are_boxed(p: PolarProjection, f: real, ro: real, b: real, env: Env)
    requires
        p.edge_style == PolarEdgeStyle::Chord,
        p.theta_break_fracs.count() > 0,
        has_corner_at(p, f, env),
        p.inner_radius_frac.finite(),
        0real <= p.inner_radius_frac.value() <= 1real,
        0real <= b <= 1real,
        b == 1real || p.inner_radius_frac.value() == 0real || holds(p.c_full_circle(), env),
        ro == p.inner_radius_frac.value() * (1real - b) + b,
    ensures
        is_boxed(p, drawn_towards_centre(ro, circle_at(angle(p, f), env)), env),
{
    swept_regions_are_boxed(p, env);
    reveal(is_box_of);
    let rim = rim_points(p, env);
    let all = rim + hole_points(p, env);
    let c = p.theta_break_fracs.count();
    let q = circle_at(angle(p, f), env);
    let span = p.theta_end.value() - p.theta_start.value();
    assert(0real * span == 0real && 1real * span == span) by (nonlinear_arith);
    let by = p.inner_radius_frac.value();
    p.inner_radius_frac.sign_of_value();
    let inner = drawn_towards_centre(by, q);
    let i: int = if exists|i: int|
        0 <= i < c && f == #[trigger] break_at(p.theta_break_fracs, i) {
        choose|i: int| 0 <= i < c && f == #[trigger] break_at(p.theta_break_fracs, i)
    } else if f == 0real {
        c as int
    } else {
        c as int + 1
    };
    assert(rim[i] == q);
    assert(all[i] == q);
    assert(is_boxed(p, q, env));
    if b == 1real {
        assert(by * (1real - 1real) + 1real == 1real) by (nonlinear_arith);
        let x = q.0;
        let y = q.1;
        assert(1real * x == x && 1real * y == y) by (nonlinear_arith);
    } else {
        if by == 0real {
            assert(all[rim.len() as int] == (0real, 0real));
            let x = q.0;
            let y = q.1;
            assert(0real * x == 0real && 0real * y == 0real) by (nonlinear_arith);
        } else {
            assert(i < c);
            assert(all[rim.len() + i] == inner);
        }
        assert(is_boxed(p, inner, env));
        let e = p.extent();
        mixtures_stay_between(value(e.min_x, env), value(e.max_x, env), inner.0, q.0, b);
        mixtures_stay_between(value(e.min_y, env), value(e.max_y, env), inner.1, q.1, b);
        let x = q.0;
        let y = q.1;
        assert((by * x) * (1real - b) + x * b == (by * (1real - b) + b) * x) by (nonlinear_arith);
        assert((by * y) * (1real - b) + y * b == (by * (1real - b) + b) * y) by (nonlinear_arith);
    }
}

/// What is fitted to the panel stays in it: no point of the polygon's outer edge
/// falls outside, and where the polygon has no hole or goes all the way round no
/// point within it does.
pub proof fn fitted_polygons_stay_in_the_panel(p: PolarProjection, a: Expr, b: Expr, env: Env)
    requires
        p.edge_style == PolarEdgeStyle::Chord,
        p.fit_to_bbox,
        p.outer_radius_frac is None,
        panel_has_room(env),
        region_is_open(p, env),
        are_numbers(p.theta_break_fracs),
        p.theta_break_fracs.count() > 0,
        forall|i: int|
            0 <= i < p.theta_break_fracs.count() ==> 0real <= #[trigger] break_at(
                p.theta_break_fracs,
                i,
            ) <= 1real,
        p.inner_radius_frac.finite(),
        0real <= p.inner_radius_frac.value() <= 1real,
        0real <= value(a, env) <= 1real,
        0real <= value(b, env) <= 1real,
        value(b, env) == 1real || p.inner_radius_frac.value() == 0real || holds(
            p.c_full_circle(),
            env,
        ),
    ensures
        ({
            let at = p.projected(a, b);
            &&& (env.var)(Quantity::PanelX0) <= value(at.x, env) <= (env.var)(Quantity::PanelX1)
            &&& (env.var)(Quantity::PanelY0) <= value(at.y, env) <= (env.var)(Quantity::PanelY1)
        }),
{
    let g = p.geometry_of();
    let e = p.extent();
    let m = swept_regions_fill_the_panel(p, env);
    let by = p.inner_radius_frac.value();
    let f = value(b, env);
    let ro = by * (1real - f) + f;
    points_go_round_and_outward(p, a, b, env);
    let (x, y, w) = polygons_are_made_of_chords(p, a, env);
    corners_are_boxed(p, x, ro, f, env);
    corners_are_boxed(p, y, ro, f, env);
    let c = circle_at(angle(p, x), env);
    let d = circle_at(angle(p, y), env);
    let u = p.unit_point(a);
    let ux = value(u.x, env);
    let uy = value(u.y, env);
    mixtures_stay_between(value(e.min_x, env), value(e.max_x, env), ro * c.0, ro * d.0, w);
    mixtures_stay_between(value(e.min_y, env), value(e.max_y, env), ro * c.1, ro * d.1, w);
    let c0 = c.0;
    let c1 = c.1;
    let d0 = d.0;
    let d1 = d.1;
    assert((ro * c0) * (1real - w) + (ro * d0) * w == ro * (c0 * (1real - w) + d0 * w))
        by (nonlinear_arith);
    assert((ro * c1) * (1real - w) + (ro * d1) * w == ro * (c1 * (1real - w) + d1 * w))
        by (nonlinear_arith);
    assert(m * 1real == m) by (nonlinear_arith);
    let r = m * by + f * (m - m * by);
    assert(r == m * ro) by (nonlinear_arith)
        requires
            r == m * by + f * (m - m * by),
            ro == by * (1real - f) + f,
    ;
    assert(r * ux == m * (ro * ux)) by (nonlinear_arith)
        requires
            r == m * ro,
    ;
    assert(r * uy == m * (ro * uy)) by (nonlinear_arith)
        requires
            r == m * ro,
    ;
    let px = ro * ux;
    let py = ro * uy;
    let lx = value(e.min_x, env);
    let hx = value(e.max_x, env);
    let ly = value(e.min_y, env);
    let hy = value(e.max_y, env);
    assert(m * lx <= m * px <= m * hx) by (nonlinear_arith)
        requires
            m > 0real,
            lx <= px <= hx,
    ;
    assert(m * ly <= m * py <= m * hy) by (nonlinear_arith)
        requires
            m > 0real,
            ly <= py <= hy,
    ;
}

/// The fractions along an edge go evenly from one end to the other.
pub proof fn edges_go_evenly(start: Expr, end: Expr, t: Expr, env: Env)
    ensures
        value(e_along(start, end, t), env) == value(start, env) + value(t, env) * (value(end, env)
            - value(start, env)),
{
    assert(value(e_sub(end, start), env) == value(end, env) - value(start, env));
    assert(value(e_mul(t, e_sub(end, start)), env) == value(t, env) * value(e_sub(end, start), env));
}

/// An arc is drawn in as many steps as the painter found it takes, at least one
/// and no more than are ever taken, and all of one length. One that does not go
/// round is drawn straight.
pub proof fn arcs_are_drawn_in_even_steps(
    p: PolarProjection,
    from: Fractions,
    to: Fractions,
    facts: EdgeFacts,
    k: int,
    env: Env,
)
    requires
        p.edge_style == PolarEdgeStyle::Geodesic,
        ({
            let all = Projection::Polar(p).samples_between(from, to, facts);
            0 <= k < all.len()
        }),
    ensures
        ({
            let all = Projection::Polar(p).samples_between(from, to, facts);
            let n = all.len() + 1;
            let turned = angle(p, value(to.a, env)) - angle(p, value(from.a, env));
            &&& n == facts.steps || n == 720 && facts.steps > 720
            &&& value(all[k].sample.t, env) * (n as real) == (k + 1) as real
            &&& holds(all[k].when, env) == (real_abs(turned) >= 1real / 1_000_000_000real)
        }),
{
    let all = Projection::Polar(p).samples_between(from, to, facts);
    let n = all.len() + 1;
    let t = Expr::Ratio((k + 1) as i64, n as u64);
    assert(all[k].sample.t == t);
    let x = (k + 1) as real;
    let d = n as real;
    assert(value(t, env) == x / d);
    assert((x / d) * d == x) by (nonlinear_arith)
        requires
            d > 0real,
    ;
    angles_are_fractions_of_the_sweep(p, to.a, env);
    angles_are_fractions_of_the_sweep(p, from.a, env);
    let turned = e_sub(p.theta_at(to.a), p.theta_at(from.a));
    assert(value(turned, env) == value(p.theta_at(to.a), env) - value(p.theta_at(from.a), env));
    assert(value(Expr::Abs(Arc::new(turned)), env) == real_abs(value(turned, env)));
    assert(value(Expr::Ratio(1, 1_000_000_000), env) == 1real / 1_000_000_000real);
    let still = c_within(turned, 1_000_000_000);
    assert(holds(still, env) == (real_abs(value(turned, env)) < 1real / 1_000_000_000real));
    assert(all[k].when == c_not(still));
}

/// An arc takes as many steps as keep each no wider than strays from the true arc
/// by a pixel: so wide that its square times the radius halfway along is eight.
/// The radius counts as a pixel at least.
pub proof fn steps_stay_near_their_arc(p: PolarProjection, from: Fractions, to: Fractions, env: Env)
    ensures
        ({
            let g = p.geometry_of();
            let inner = value(g.r_inner, env);
            let mean = (value(from.b, env) + value(to.b, env)) / 2real;
            let radius = inner + mean * (value(g.r_outer, env) - inner);
            let turned = angle(p, value(to.a, env)) - angle(p, value(from.a, env));
            value(p.arc_steps(from, to), env) == real_abs(turned) / (env.sqrt)(
                8real / real_max(radius, 1real),
            )
        }),
{
    panel_sides(env);
    let g = p.geometry_of();
    angles_are_fractions_of_the_sweep(p, to.a, env);
    angles_are_fractions_of_the_sweep(p, from.a, env);
    let turned = e_sub(p.theta_at(to.a), p.theta_at(from.a));
    assert(value(turned, env) == value(p.theta_at(to.a), env) - value(p.theta_at(from.a), env));
    let delta = Expr::Abs(Arc::new(turned));
    assert(value(delta, env) == real_abs(value(turned, env)));
    let sum = e_add(from.b, to.b);
    let c = value(sum, env);
    assert(c == value(from.b, env) + value(to.b, env));
    let mean = e_mul(sum, e_half());
    assert(value(mean, env) == c * (1real / 2real));
    assert(c * (1real / 2real) == c / 2real) by (nonlinear_arith);
    let d = e_sub(g.r_outer, g.r_inner);
    assert(value(d, env) == value(g.r_outer, env) - value(g.r_inner, env));
    assert(value(e_mul(mean, d), env) == value(mean, env) * value(d, env));
    let r = e_add(g.r_inner, e_mul(mean, d));
    assert(value(r, env) == value(g.r_inner, env) + value(mean, env) * value(d, env));
    let radius = e_max(r, e_int(1));
    assert(value(radius, env) == real_max(value(r, env), 1real));
    let stray = e_int(CHORD_ERROR_PX);
    let eight = e_int(8);
    assert(value(eight, env) == 8real) by {
        assert(8real / 1real == 8real);
    }
    assert(value(stray, env) == 1real);
    let top = e_mul(stray, eight);
    assert(value(top, env) == 1real * 8real);
    assert(value(e_div(top, radius), env) == 8real / value(radius, env));
    let widest = Expr::Sqrt(Arc::new(e_div(top, radius)));
    assert(value(widest, env) == (env.sqrt)(8real / value(radius, env)));
    assert(value(e_div(delta, widest), env) == value(delta, env) / value(widest, env));
}

/// An edge along chords may bend at each break, where it crosses it and at no
/// other place: the fraction of the sweep there is the break's own.
pub proof fn chords_bend_where_they_cross(
    p: PolarProjection,
    from: Fractions,
    to: Fractions,
    facts: EdgeFacts,
    k: int,
    env: Env,
)
    requires
        p.edge_style == PolarEdgeStyle::Chord,
        value(from.a, env) != value(to.a, env),
        ({
            let all = Projection::Polar(p).samples_between(from, to, facts);
            0 <= k < all.len()
        }),
    ensures
        ({
            let all = Projection::Polar(p).samples_between(from, to, facts);
            let t = value(all[k].sample.t, env);
            let x = value(from.a, env);
            let y = value(to.a, env);
            &&& all.len() == p.theta_break_fracs.count()
            &&& exists|i: int|
                0 <= i < p.theta_break_fracs.count() && x + t * (y - x) == #[trigger] break_at(
                    p.theta_break_fracs,
                    i,
                )
            &&& holds(all[k].when, env) == (real_abs(y - x) >= 1real / 1_000_000_000_000real
                && 1real / 1_000_000_000real < t < 1real - 1real / 1_000_000_000real)
        }),
{
    let all = Projection::Polar(p).samples_between(from, to, facts);
    let b = p.theta_break_fracs;
    let n = b.count();
    let j = if facts.rises {
        k
    } else {
        n - 1 - k
    };
    let f = b.sorted_frac(j);
    let c = value(f, env);
    let x = value(from.a, env);
    let y = value(to.a, env);
    let t = p.crossing(from, to, j);
    let d = e_sub(to.a, from.a);
    assert(value(d, env) == y - x);
    assert(value(e_sub(f, from.a), env) == c - x);
    let q = value(t, env);
    assert(q == (c - x) / (y - x));
    assert(all[k].sample.t == t);
    assert(x + q * (y - x) == c) by (nonlinear_arith)
        requires
            q == (c - x) / (y - x),
            x != y,
    ;
    match b {
        ThetaBreaks::BandCentres(m) => {
            assert(c == break_at(b, j));
        },
        ThetaBreaks::At(v) => {
            let a = ascending(v@);
            sorting_keeps_numbers(v@);
            v@.to_multiset_ensures();
            a.to_multiset_ensures();
            assert(a.contains(a[j]));
            assert(v@.to_multiset().contains(a[j]));
            let i = choose|i: int| 0 <= i < v@.len() && v@[i] == a[j];
            assert(c == break_at(b, i));
        },
    }
    let margin = Expr::Ratio(1, 1_000_000_000);
    assert(value(margin, env) == 1real / 1_000_000_000real);
    assert(value(Expr::Ratio(1, 1_000_000_000_000), env) == 1real / 1_000_000_000_000real);
    assert(value(e_int(1), env) == 1real) by {
        assert(1real / 1real == 1real);
    }
    assert(value(e_sub(e_int(1), margin), env) == 1real - 1real / 1_000_000_000real);
    assert(value(Expr::Abs(Arc::new(d)), env) == real_abs(y - x));
    let near = c_within(d, 1_000_000_000_000);
    assert(holds(near, env) == (real_abs(y - x) < 1real / 1_000_000_000_000real));
    let low = c_gt(t, margin);
    let high = c_gt(e_sub(e_int(1), margin), t);
    assert(holds(low, env) == (q > 1real / 1_000_000_000real));
    assert(holds(high, env) == (1real - 1real / 1_000_000_000real > q));
    assert(holds(c_and(low, high), env) == (holds(low, env) && holds(high, env)));
    assert(holds(c_not(near), env) == !holds(near, env));
    assert(all[k].when == c_and(c_not(near), c_and(low, high)));
}

/// Four quarter turns are two half turns are one turn. A circle that starts at the
/// top and goes round clockwise ends a turn before a quarter turn.
pub proof fn turns_are_made_of_quarters()
    ensures
        (Num { bits: HALF_TURN }).value() == 2real * (Num { bits: QUARTER_TURN }).value(),
        (Num { bits: FULL_TURN }).value() == 4real * (Num { bits: QUARTER_TURN }).value(),
        (Num { bits: FULL_CIRCLE_END }).value() == (Num { bits: QUARTER_TURN }).value() - (Num {
            bits: FULL_TURN,
        }).value(),
{
    let a = Num { bits: QUARTER_TURN };
    let b = Num { bits: HALF_TURN };
    let c = Num { bits: FULL_TURN };
    assert(a.exponent() == -52 && b.exponent() == -51 && c.exponent() == -50);
    assert(a.significand() == b.significand() && b.significand() == c.significand());
    two_to_step(-52);
    two_to_step(-51);
    let s = a.significand() as real;
    let t = two_to(-52);
    let u = two_to(-51);
    let v = two_to(-50);
    assert(u == 2real * t && v == 2real * u);
    assert(s * u == 2real * (s * t) && s * v == 4real * (s * t)) by (nonlinear_arith)
        requires
            u == 2real * t,
            v == 2real * u,
    ;
    let e = Num { bits: FULL_CIRCLE_END };
    assert(e.exponent() == -50 && e.negative());
    assert(4 * e.significand() == 3 * a.significand());
    let w = e.significand() as real;
    assert(4real * w == 3real * s);
    assert(w * v == 3real * (s * t)) by (nonlinear_arith)
        requires
            4real * w == 3real * s,
            u == 2real * t,
            v == 2real * u,
    ;
}

} // verus!
