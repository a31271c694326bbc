//! What labels have in common.

use vstd::prelude::*;

use crate::expr::{
    c_and, c_finite, c_not, c_positive, e_int, e_sub, holds, points_in_pixels, real_max, value,
    well_defined, Cond, Env, Expr,
};
use crate::geom::label::{
    backdrop_fill, backdrop_pen, backdrop_steps, backdrop_stroke, c_rect_open, corner_px, Backdrop,
};
use crate::laws::data::{px, says};
use crate::num::Num;
use crate::resolve::Source;
use crate::scene::{turned, Cap, Join, Op, Paint, Path, Point, Rect, Step, Xform};

verus! {

/// Whether a rectangle has room: its corners are finite, and it is wider and taller
/// than nothing.
pub open spec fn has_room(r: Rect, env: Env) -> bool {
    &&& well_defined(r.x0, env) && well_defined(r.y0, env)
    &&& well_defined(r.x1, env) && well_defined(r.y1, env)
    &&& value(r.x1, env) > value(r.x0, env)
    &&& value(r.y1, env) > value(r.y0, env)
}

/// A rectangle is open exactly where it has room.
pub proof fn rectangles_with_room(r: Rect, env: Env)
    ensures
        holds(c_rect_open(r), env) <==> has_room(r, env),
{
    let w = e_sub(r.x1, r.x0);
    let h = e_sub(r.y1, r.y0);
    assert(value(e_int(0), env) == 0real) by {
        assert(0real / 1real == 0real);
    }
    assert(value(w, env) == value(r.x1, env) - value(r.x0, env));
    assert(value(h, env) == value(r.y1, env) - value(r.y0, env));
    assert(holds(c_positive(w), env) == (value(w, env) > 0real));
    assert(holds(c_positive(h), env) == (value(h, env) > 0real));
    let a = c_and(c_finite(r.x0), c_finite(r.y0));
    let b = c_and(c_finite(r.x1), c_finite(r.y1));
    assert(holds(a, env) == (holds(c_finite(r.x0), env) && holds(c_finite(r.y0), env)));
    assert(holds(b, env) == (holds(c_finite(r.x1), env) && holds(c_finite(r.y1), env)));
    let c = c_and(c_positive(w), c_positive(h));
    assert(holds(c, env) == (holds(c_positive(w), env) && holds(c_positive(h), env)));
    assert(holds(c_and(a, b), env) == (holds(a, env) && holds(b, env)));
}

/// Whether a step draws a backdrop: its own rectangle, with corners as round as
/// asked for, in its own colour. With round corners it is drawn where they are
/// round, and without where they are not.
pub open spec fn draws_backdrop(s: Step, b: Backdrop, when: Cond, env: Env) -> bool {
    let round = real_max(px(b.corner_radius.value(), env), 0real);
    let drawn = holds(when, env) && has_room(b.rect, env);
    match s.op {
        Op::Fill { path, xform, paint, pick } => {
            &&& b.fill == Some(paint)
            &&& xform == b.xform
            &&& pick == b.pick
            &&& match path {
                Path::Rect(r) => r == b.rect && (holds(s.when, env) <==> drawn && round == 0real),
                Path::RoundedRect(r, c) => {
                    &&& r == b.rect
                    &&& value(c, env) == round
                    &&& holds(s.when, env) <==> drawn && round > 0real
                },
                _ => false,
            }
        },
        Op::Stroke { path, pen, xform, paint, pick } => {
            let width = px(b.linewidth.value(), env);
            let stroked = drawn && well_defined(pen.width, env) && width > 0real;
            &&& b.stroke == Some(paint)
            &&& xform == b.xform
            &&& pick == b.pick
            &&& value(pen.width, env) == width
            &&& value(pen.dash_offset, env) == 0real
            &&& pen.pattern is None
            &&& pen.cap == Cap::Butt
            &&& pen.join == Join::Miter
            &&& match path {
                Path::Rect(r) => r == b.rect && (holds(s.when, env) <==> stroked && round == 0real),
                Path::RoundedRect(r, c) => {
                    &&& r == b.rect
                    &&& value(c, env) == round
                    &&& holds(s.when, env) <==> stroked && round > 0real
                },
                _ => false,
            }
        },
        _ => false,
    }
}

/// Behind a label its backdrop is drawn and nothing else: filled if it has a fill,
/// and then stroked if it has a stroke, with one step for round corners and one for
/// square ones.
pub proof fn backdrops_are_filled_and_then_stroked(b: Backdrop, when: Cond, j: int, env: Env)
    ensures
        ({
            let s = backdrop_steps(b, when);
            let fills = if b.fill is Some {
                2int
            } else {
                0int
            };
            let strokes = if b.stroke is Some {
                2int
            } else {
                0int
            };
            &&& s.len() == fills + strokes
            &&& 0 <= j < s.len() ==> draws_backdrop(s[j], b, when, env)
            &&& 0 <= j < fills ==> s[j].op is Fill
            &&& fills <= j < s.len() ==> s[j].op is Stroke
            &&& 0 <= j < fills ==> (s[j].op->Fill_path is RoundedRect <==> j == 0)
            &&& fills <= j < s.len() ==> (s[j].op->Stroke_path is RoundedRect <==> j == fills)
        }),
{
    let open = c_and(when, c_rect_open(b.rect));
    let a = backdrop_fill(b, open);
    let c = backdrop_stroke(b, open);
    let s = backdrop_steps(b, when);
    assert(s =~= a + c);
    rectangles_with_room(b.rect, env);
    assert(holds(open, env) == (holds(when, env) && holds(c_rect_open(b.rect), env)));
    let l = Expr::Lit(b.corner_radius);
    points_in_pixels(l, env);
    assert(value(l, env) == b.corner_radius.value());
    assert(value(e_int(0), env) == 0real) by {
        assert(0real / 1real == 0real);
    }
    let corner = corner_px(b.corner_radius);
    assert(value(corner, env) == real_max(px(b.corner_radius.value(), env), 0real));
    let round = c_positive(corner);
    assert(holds(round, env) == (value(corner, env) > 0real));
    assert(holds(c_not(round), env) == !holds(round, env));
    let pen = backdrop_pen(b.linewidth);
    let w = Expr::Lit(b.linewidth);
    points_in_pixels(w, env);
    assert(value(w, env) == b.linewidth.value());
    let wide = crate::expr::c_finite_positive(pen.width);
    assert(holds(c_positive(pen.width), env) == (value(pen.width, env) > 0real));
    assert(holds(c_finite(pen.width), env) == well_defined(pen.width, env));
    assert(holds(wide, env) == (holds(c_finite(pen.width), env) && holds(
        c_positive(pen.width),
        env,
    )));
    let stroked = c_and(open, wide);
    assert(holds(stroked, env) == (holds(open, env) && holds(wide, env)));
    assert(holds(c_and(open, round), env) == (holds(open, env) && holds(round, env)));
    assert(holds(c_and(open, c_not(round)), env) == (holds(open, env) && !holds(round, env)));
    assert(holds(c_and(stroked, round), env) == (holds(stroked, env) && holds(round, env)));
    assert(holds(c_and(stroked, c_not(round)), env) == (holds(stroked, env) && !holds(round, env)));
    if b.fill is Some {
        assert(draws_backdrop(a[0], b, when, env) && draws_backdrop(a[1], b, when, env));
        assert(s[0] == a[0] && s[1] == a[1]);
    }
    if b.stroke is Some {
        assert(draws_backdrop(c[0], b, when, env) && draws_backdrop(c[1], b, when, env));
        assert(s[a.len() as int] == c[0] && s[a.len() as int + 1] == c[1]);
    }
}

/// Something is turned about a point by its angle, against the clock as seen, and
/// not at all by an angle of nought.
pub proof fn turns_go_against_the_clock(angle: Num, at: Point, env: Env)
    ensures
        angle.is_nought() ==> turned(angle, at) is Identity,
        !angle.is_nought() ==> (turned(angle, at) matches Xform::RotateAbout { angle: a, at: p }
            && value(a, env) == 0real - angle.value() && p == at),
{
    assert(value(Expr::Lit(angle), env) == angle.value());
}

/// Whether something is turned by the row's own `angle` about a point.
pub open spec fn turns_by_its_row(t: Xform, src: Source, i: int, at: Point, env: Env) -> bool {
    match src.number_at("angle"@, i) {
        Some(a) => if a.is_nought() {
            t is Identity
        } else {
            t matches Xform::RotateAbout { angle, at: p } && value(angle, env) == 0real - a.value()
                && p == at
        },
        None => t is Identity,
    }
}

/// Whether a paint is the colour of a channel with the opacity beside it, or else
/// the theme's colour, or else black.
pub open spec fn is_glyph_paint(p: Paint, src: Source, i: int, theme: Option<crate::value::Color>) -> bool {
    match (src.color_at("fill"@, i), theme) {
        (Some(c), _) => p == (Paint { color: c, opacity: src.number_at("fill_opacity"@, i) }),
        (None, Some(c)) => p == (Paint { color: c, opacity: src.number_at("fill_opacity"@, i) }),
        (None, None) => {
            &&& p.opacity is None
            &&& p.color.r == 0 && p.color.g == 0 && p.color.b == 0
            &&& p.color.a == 0x3F80_0000
        },
    }
}

/// Whether a backdrop is filled and stroked with the colours of the row's own
/// channels, as thick, as round and hit-testing as they say.
pub open spec fn is_backdrop_of(b: Backdrop, src: Source, i: int, linewidth: Num) -> bool {
    &&& match src.color_at("bg_fill"@, i) {
        Some(c) => b.fill == Some(
            Paint { color: c, opacity: src.number_at("bg_fill_opacity"@, i) },
        ),
        None => b.fill is None,
    }
    &&& match src.color_at("bg_stroke"@, i) {
        Some(c) => b.stroke == Some(
            Paint { color: c, opacity: src.number_at("bg_stroke_opacity"@, i) },
        ),
        None => b.stroke is None,
    }
    &&& b.linewidth.value() == says(src, "bg_linewidth"@, i, linewidth.value())
    &&& b.corner_radius.value() == says(src, "bg_corner_radius"@, i, 0real)
    &&& b.pick == crate::resolve::pick_for(src.number_at("pick_id"@, i))
}

} // verus!
