//! Slices of disks and rings.

use vstd::prelude::*;

use crate::expr::{
    c_and, c_eq, c_finite, c_finite_positive, c_not, c_positive, e_int, e_mul, e_neg, e_panel_h,
    e_panel_w, e_sub, holds, points_in_pixels, real_clamp, real_min, value, well_defined, Env, Expr,
    Quantity,
};
use crate::geom::place::fractions_at;
use crate::geom::wedge::{
    band_px, c_drawn, centre_of, disk_slice, fill_of, fill_steps, inner_px, pen_of, radius_adds_up,
    radius_px, ring_slice, row_steps, steps_of, stroke_of, stroke_steps, sweep_of, theta2_of,
    theta_of,
};
use crate::laws::data::{
    cartesian_points_are_fractions_of_the_panel, is_put, offsets_move_right_and_up, one_is_one, put,
    px, room, rows_lie_at_their_own_place, rows_lie_where_the_data_put_them, says,
    values_are_taken_for_what_they_are, zero_is_nought,
};
use crate::laws::segment::panels_with_room;
use crate::num::Num;
use crate::projection::{Projection, FULL_TURN, ONE};
use crate::resolve::{cap_named, join_named, pick_for, Source};
use crate::scene::{Cap, Join, Op, Path, Point, Step};

verus! {

/// The smaller of two widths, of which neither counts that is not above zero.
pub open spec fn narrower(a: real, b: real) -> real {
    if a > 0real && b > 0real {
        real_min(a, b)
    } else if a > 0real {
        a
    } else if b > 0real {
        b
    } else {
        0real
    }
}

/// How wide the band is that row `i` lies in, in pixels: the narrower of the two.
pub open spec fn band_width(src: Source, i: int, env: Env) -> real {
    narrower(
        room(src, "x"@, i) * ((env.var)(Quantity::PanelX1) - (env.var)(Quantity::PanelX0)),
        room(src, "y"@, i) * ((env.var)(Quantity::PanelY1) - (env.var)(Quantity::PanelY0)),
    )
}

/// The radius that two channels ask for in row `i`: points, and bands on top.
pub open spec fn asked_radius(
    src: Source,
    points: Seq<char>,
    bands: Seq<char>,
    i: int,
    env: Env,
) -> real {
    px(says(src, points, i, 0real), env) + says(src, bands, i, 0real) * band_width(src, i, env)
}

/// Whether a point is the centre of row `i`: where its own `x` and `y` put it on
/// the panel, and beside that by its offsets.
pub open spec fn is_centre(p: Point, src: Source, i: int, env: Env) -> bool {
    let x0 = (env.var)(Quantity::PanelX0);
    let y1 = (env.var)(Quantity::PanelY1);
    let w = (env.var)(Quantity::PanelX1) - x0;
    let h = y1 - (env.var)(Quantity::PanelY0);
    &&& value(p.x, env) == x0 + put(src, "x"@, i, says(src, "x_band"@, i, 0real)) * w + px(
        says(src, "x_offset"@, i, 0real),
        env,
    )
    &&& value(p.y, env) == y1 - put(src, "y"@, i, says(src, "y_band"@, i, 0real)) * h - px(
        says(src, "y_offset"@, i, 0real),
        env,
    )
}

/// Whether a slice goes round from the row's own `theta` to its own `theta2`. The
/// angles run against the clock, and pixels run down, so that both are taken with
/// the other sign.
pub open spec fn goes_round(start: Expr, sweep: Expr, src: Source, i: int, env: Env) -> bool {
    let full = (Num { bits: FULL_TURN }).value();
    &&& value(start, env) == 0real - says(src, "theta"@, i, 0real)
    &&& value(start, env) + value(sweep, env) == 0real - says(src, "theta2"@, i, full)
}

/// Whether a shape is the slice of row `i`: of its disk, or of its ring where it
/// has a hole.
pub open spec fn is_slice(path: Path, src: Source, i: int, env: Env) -> bool {
    let outer_asked = asked_radius(src, "radius"@, "radius_band"@, i, env);
    let inner_asked = asked_radius(src, "radius2"@, "radius2_band"@, i, env);
    match path {
        Path::Wedge { centre, radius, start, sweep } => {
            &&& is_centre(centre, src, i, env)
            &&& value(radius, env) == outer_asked
            &&& goes_round(start, sweep, src, i, env)
        },
        Path::AnnularWedge { centre, inner, outer, start, sweep } => {
            &&& is_centre(centre, src, i, env)
            &&& value(outer, env) == outer_asked
            &&& value(inner, env) == real_clamp(inner_asked, 0real, outer_asked)
            &&& goes_round(start, sweep, src, i, env)
        },
        _ => false,
    }
}

/// Whether a step draws the slice of row `i`: in the row's own colour, and with
/// its own pen and id. A ring is drawn where there is a hole, and a disk where
/// there is none.
pub open spec fn draws_slice(s: Step, src: Source, i: int, env: Env) -> bool {
    let inner = real_clamp(
        asked_radius(src, "radius2"@, "radius2_band"@, i, env),
        0real,
        asked_radius(src, "radius"@, "radius_band"@, i, env),
    );
    match s.op {
        Op::Fill { path, xform, paint, pick } => {
            &&& is_slice(path, src, i, env)
            &&& holds(s.when, env) ==> (path is AnnularWedge) == (inner > 0real)
            &&& xform is Identity
            &&& src.color_at("fill"@, i) == Some(paint.color)
            &&& paint.opacity == src.number_at("fill_opacity"@, i)
            &&& pick == pick_for(src.number_at("pick_id"@, i))
        },
        Op::Stroke { path, pen, xform, paint, pick } => {
            &&& is_slice(path, src, i, env)
            &&& holds(s.when, env) ==> (path is AnnularWedge) == (inner > 0real)
            &&& holds(s.when, env) ==> value(pen.width, env) > 0real
            &&& xform is Identity
            &&& src.color_at("stroke"@, i) == Some(paint.color)
            &&& paint.opacity == src.number_at("stroke_opacity"@, i)
            &&& pick == pick_for(src.number_at("pick_id"@, i))
            &&& value(pen.width, env) == px(says(src, "linewidth"@, i, 1real), env)
            &&& value(pen.dash_offset, env) == px(says(src, "dash_offset"@, i, 0real), env)
            &&& pen.cap == cap_named(src.string_at("cap"@, i), Cap::Butt)
            &&& pen.join == join_named(src.string_at("join"@, i), Join::Miter)
            &&& pen.pattern == src.linetype_at("linetype"@, i)
        },
        _ => false,
    }
}

/// A radius is as many pixels as its points come to, and so many bands on top.
pub proof fn radii_are_those_asked_for(
    src: Source,
    points: Seq<char>,
    bands: Seq<char>,
    i: int,
    env: Env,
)
    requires
        is_put(src, "x"@, i),
        is_put(src, "y"@, i),
    ensures
        value(radius_px(src, points, bands, i), env) == asked_radius(src, points, bands, i, env),
{
    let zero = Num { bits: 0 };
    zero_is_nought();
    radius_adds_up(src, points, bands, i, env);
    values_are_taken_for_what_they_are(src, points, i, zero);
    values_are_taken_for_what_they_are(src, bands, i, zero);
    rows_lie_where_the_data_put_them(src, "x"@, i, zero, env);
    rows_lie_where_the_data_put_them(src, "y"@, i, zero, env);
    let xb = Expr::Lit(src.band_width("x"@, i));
    let yb = Expr::Lit(src.band_width("y"@, i));
    let w = e_panel_w();
    let h = e_panel_h();
    let a = e_mul(xb, w);
    let b = e_mul(yb, h);
    assert(value(xb, env) == room(src, "x"@, i) && value(yb, env) == room(src, "y"@, i));
    assert(value(Expr::Var(Quantity::PanelX0), env) == (env.var)(Quantity::PanelX0));
    assert(value(Expr::Var(Quantity::PanelX1), env) == (env.var)(Quantity::PanelX1));
    assert(value(Expr::Var(Quantity::PanelY0), env) == (env.var)(Quantity::PanelY0));
    assert(value(Expr::Var(Quantity::PanelY1), env) == (env.var)(Quantity::PanelY1));
    assert(value(w, env) == (env.var)(Quantity::PanelX1) - (env.var)(Quantity::PanelX0));
    assert(value(h, env) == (env.var)(Quantity::PanelY1) - (env.var)(Quantity::PanelY0));
    assert(value(a, env) == value(xb, env) * value(w, env));
    assert(value(b, env) == value(yb, env) * value(h, env));
    assert(value(e_int(0), env) == 0real) by {
        assert(0real / 1real == 0real);
    }
    assert(holds(c_positive(a), env) == (value(a, env) > 0real));
    assert(holds(c_positive(b), env) == (value(b, env) > 0real));
    assert(value(crate::expr::e_min(a, b), env) == real_min(value(a, env), value(b, env)));
    assert(value(crate::expr::e_select(c_positive(b), crate::expr::e_min(a, b), a), env) == (
    if holds(c_positive(b), env) {
        value(crate::expr::e_min(a, b), env)
    } else {
        value(a, env)
    }));
    assert(value(crate::expr::e_select(c_positive(b), b, e_int(0)), env) == (if holds(
        c_positive(b),
        env,
    ) {
        value(b, env)
    } else {
        0real
    }));
    assert(value(band_px(src, i), env) == band_width(src, i, env));
}

proof fn slices_have_their_shape(src: Source, i: int, env: Env)
    requires
        is_put(src, "x"@, i),
        is_put(src, "y"@, i),
    ensures
        is_slice(disk_slice(src, i), src, i, env),
        is_slice(ring_slice(src, i), src, i, env),
        value(inner_px(src, i), env) == real_clamp(
            asked_radius(src, "radius2"@, "radius2_band"@, i, env),
            0real,
            asked_radius(src, "radius"@, "radius_band"@, i, env),
        ),
{
    let zero = Num { bits: 0 };
    zero_is_nought();
    radii_are_those_asked_for(src, "radius"@, "radius_band"@, i, env);
    radii_are_those_asked_for(src, "radius2"@, "radius2_band"@, i, env);
    assert(value(e_int(0), env) == 0real) by {
        assert(0real / 1real == 0real);
    }
    let f = fractions_at(src, "x"@, "y"@, "x_band"@, "y_band"@, i);
    rows_lie_at_their_own_place(src, "x"@, "y"@, "x_band"@, "y_band"@, i, env);
    cartesian_points_are_fractions_of_the_panel(f.a, f.b, env);
    offsets_move_right_and_up(
        src,
        Projection::Cartesian.point_at(f.a, f.b),
        "x_offset"@,
        "y_offset"@,
        i,
        env,
    );
    assert(is_centre(centre_of(src, i), src, i, env));
    let t = Expr::Lit(theta_of(src, i));
    let u = Expr::Lit(theta2_of(src, i));
    values_are_taken_for_what_they_are(src, "theta"@, i, zero);
    values_are_taken_for_what_they_are(src, "theta2"@, i, Num { bits: FULL_TURN });
    assert(value(t, env) == theta_of(src, i).value());
    assert(value(u, env) == theta2_of(src, i).value());
    assert(value(e_neg(t), env) == 0real - value(t, env));
    assert(value(e_sub(u, t), env) == value(u, env) - value(t, env));
    assert(value(sweep_of(src, i), env) == 0real - (value(u, env) - value(t, env)));
    assert(goes_round(e_neg(t), sweep_of(src, i), src, i, env));
}

/// Whatever is drawn for a row is its own slice: it goes round its own centre from
/// its own angle to its own angle, between its own radii.
pub proof fn each_step_draws_its_rows_slice(src: Source, i: int, j: int, env: Env)
    requires
        is_put(src, "x"@, i),
        is_put(src, "y"@, i),
        0 <= j < row_steps(src, i).len(),
    ensures
        draws_slice(row_steps(src, i)[j], src, i, env),
{
    slices_have_their_shape(src, i, env);
    let inner = inner_px(src, i);
    assert(value(e_int(0), env) == 0real) by {
        assert(0real / 1real == 0real);
    }
    let hole = c_positive(inner);
    assert(holds(hole, env) == (value(inner, env) > 0real));
    assert(holds(c_not(hole), env) == !holds(hole, env));
    let drawn = c_drawn(src, i);
    let zero = Num { bits: 0 };
    zero_is_nought();
    let pen = pen_of(src, i);
    let lw = Expr::Lit(src.number_or("linewidth"@, i, Num { bits: ONE }));
    let off = Expr::Lit(src.number_or("dash_offset"@, i, zero));
    one_is_one();
    values_are_taken_for_what_they_are(src, "linewidth"@, i, Num { bits: ONE });
    values_are_taken_for_what_they_are(src, "dash_offset"@, i, zero);
    points_in_pixels(lw, env);
    points_in_pixels(off, env);
    assert(value(lw, env) == src.number_or("linewidth"@, i, Num { bits: ONE }).value());
    assert(value(off, env) == src.number_or("dash_offset"@, i, zero).value());
    let wide = c_finite_positive(pen.width);
    assert(holds(c_positive(pen.width), env) == (value(pen.width, env) > 0real));
    assert(holds(wide, env) ==> holds(c_positive(pen.width), env));
    let stroked = c_and(drawn, wide);
    assert(holds(stroked, env) ==> holds(wide, env));
    assert(holds(c_and(drawn, hole), env) ==> holds(hole, env));
    assert(holds(c_and(drawn, c_not(hole)), env) ==> !holds(hole, env));
    assert(holds(c_and(stroked, hole), env) ==> holds(hole, env) && holds(stroked, env));
    assert(holds(c_and(stroked, c_not(hole)), env) ==> !holds(hole, env) && holds(stroked, env));
    let a = fill_steps(src, i);
    let b = stroke_steps(src, i);
    assert(row_steps(src, i) =~= a + b);
    if j < a.len() {
        assert(row_steps(src, i)[j] == a[j]);
        assert(fill_of(src, i) is Some);
        assert(draws_slice(a[0], src, i, env) && draws_slice(a[1], src, i, env));
        assert(j == 0 || j == 1);
    } else {
        assert(row_steps(src, i)[j] == b[j - a.len()]);
        assert(stroke_of(src, i) is Some);
        assert(draws_slice(b[0], src, i, env) && draws_slice(b[1], src, i, env));
        assert(j - a.len() == 0 || j - a.len() == 1);
    }
}

/// Rows are drawn one after the other, and each of them with all that there is for
/// it.
pub proof fn rows_are_drawn_in_turn(src: Source, n: nat, i: int)
    requires
        0 <= i < n,
    ensures
        steps_of(src, n).len() == steps_of(src, (n - 1) as nat).len() + row_steps(
            src,
            n - 1,
        ).len(),
        steps_of(src, i as nat).len() + row_steps(src, i).len() <= steps_of(src, n).len(),
        forall|j: int|
            0 <= j < row_steps(src, i).len() ==> steps_of(src, n)[steps_of(src, i as nat).len()
                + j] == #[trigger] row_steps(src, i)[j],
    decreases n,
{
    if i < n - 1 {
        rows_are_drawn_in_turn(src, (n - 1) as nat, i);
    }
}

/// The row of a step, among the first `n`.
pub open spec fn row_of_step(src: Source, n: nat, j: int) -> int
    decreases n,
{
    if n == 0 {
        -1
    } else if j >= steps_of(src, (n - 1) as nat).len() {
        n - 1
    } else {
        row_of_step(src, (n - 1) as nat, j)
    }
}

/// Every step of a plan draws the slice of one of the rows.
pub proof fn plans_hold_slices_alone(src: Source, n: nat, j: int, env: Env)
    requires
        forall|i: int| 0 <= i < n ==> #[trigger] is_put(src, "x"@, i),
        forall|i: int| 0 <= i < n ==> #[trigger] is_put(src, "y"@, i),
        0 <= j < steps_of(src, n).len(),
    ensures
        0 <= row_of_step(src, n, j) < n,
        draws_slice(steps_of(src, n)[j], src, row_of_step(src, n, j), env),
    decreases n,
{
    if n > 0 {
        let before = steps_of(src, (n - 1) as nat);
        if j < before.len() {
            plans_hold_slices_alone(src, (n - 1) as nat, j, env);
        } else {
            assert(is_put(src, "x"@, n - 1) && is_put(src, "y"@, n - 1));
            each_step_draws_its_rows_slice(src, n - 1, j - before.len(), env);
        }
    }
}

/// A row whose angles are finite is filled if it has a fill and stroked if it has a
/// stroke, with one step for a ring and one for a disk; a row whose angles are not
/// is not drawn.
pub proof fn rows_are_filled_and_stroked(src: Source, i: int)
    ensures
        ({
            let s = row_steps(src, i);
            let t = src.number_at("theta"@, i);
            let u = src.number_at("theta2"@, i);
            let told = (t is Some ==> t->0.finite()) && (u is Some ==> u->0.finite());
            &&& !told ==> s.len() == 0
            &&& told ==> {
                let fills = if src.color_at("fill"@, i) is Some {
                    2int
                } else {
                    0int
                };
                let strokes = if src.color_at("stroke"@, i) is Some {
                    2int
                } else {
                    0int
                };
                &&& s.len() == fills + strokes
                &&& forall|j: int| 0 <= j < fills ==> (#[trigger] s[j]).op is Fill
                &&& forall|j: int| fills <= j < s.len() ==> (#[trigger] s[j]).op is Stroke
            }
        }),
{
    assert((Num { bits: FULL_TURN }).finite());
    zero_is_nought();
}

/// Slices whose angles meet share an edge: where one ends the next begins.
pub proof fn slices_that_meet_share_an_edge(
    src: Source,
    i: int,
    k: int,
    a: Path,
    b: Path,
    env: Env,
)
    requires
        is_slice(a, src, i, env),
        is_slice(b, src, k, env),
        a is Wedge,
        b is Wedge,
        says(src, "theta2"@, i, (Num { bits: FULL_TURN }).value()) == says(src, "theta"@, k, 0real),
    ensures
        value(a->Wedge_start, env) + value(a->Wedge_sweep, env) == value(b->Wedge_start, env),
{
}

/// A slice is drawn exactly where the panel has room, its centre and its radius are
/// finite, the radius is above zero and it goes round at all.
pub proof fn slices_are_drawn_where_they_can_be(src: Source, i: int, env: Env)
    requires
        is_put(src, "x"@, i),
        is_put(src, "y"@, i),
    ensures
        ({
            let f = fractions_at(src, "x"@, "y"@, "x_band"@, "y_band"@, i);
            let full = (Num { bits: FULL_TURN }).value();
            holds(c_drawn(src, i), env) <==> {
                &&& (env.var)(Quantity::PanelX1) > (env.var)(Quantity::PanelX0)
                &&& (env.var)(Quantity::PanelY1) > (env.var)(Quantity::PanelY0)
                &&& well_defined(f.a, env) && well_defined(f.b, env)
                &&& well_defined(radius_px(src, "radius"@, "radius_band"@, i), env)
                &&& asked_radius(src, "radius"@, "radius_band"@, i, env) > 0real
                &&& says(src, "theta"@, i, 0real) != says(src, "theta2"@, i, full)
            }
        }),
{
    slices_have_their_shape(src, i, env);
    panels_with_room(env);
    let f = fractions_at(src, "x"@, "y"@, "x_band"@, "y_band"@, i);
    let r = radius_px(src, "radius"@, "radius_band"@, i);
    let s = sweep_of(src, i);
    assert(value(e_int(0), env) == 0real) by {
        assert(0real / 1real == 0real);
    }
    let d = disk_slice(src, i);
    assert(value(d->Wedge_sweep, env) == value(s, env));
    assert(holds(c_eq(s, e_int(0)), env) == (value(s, env) == 0real));
    assert(holds(c_not(c_eq(s, e_int(0))), env) == !holds(c_eq(s, e_int(0)), env));
    assert(holds(c_positive(r), env) == (value(r, env) > 0real));
    assert(holds(c_finite(r), env) == well_defined(r, env));
    assert(holds(c_finite_positive(r), env) == (holds(c_finite(r), env) && holds(
        c_positive(r),
        env,
    )));
    let both = c_and(c_finite(f.a), c_finite(f.b));
    assert(holds(c_finite(f.a), env) == well_defined(f.a, env));
    assert(holds(c_finite(f.b), env) == well_defined(f.b, env));
    assert(holds(both, env) == (well_defined(f.a, env) && well_defined(f.b, env)));
    let rest = c_and(c_finite_positive(r), c_not(c_eq(s, e_int(0))));
    assert(holds(rest, env) == (holds(c_finite_positive(r), env) && holds(
        c_not(c_eq(s, e_int(0))),
        env,
    )));
    assert(holds(c_and(both, rest), env) == (holds(both, env) && holds(rest, env)));
}

} // verus!
