//! Labels fitted into rectangles.

use vstd::prelude::*;

use crate::expr::{
    c_and, c_finite, c_ge, c_positive, e_add, e_half, e_int, e_max, e_mul, e_px, e_sub, holds,
    points_in_pixels, real_max, real_min, value, well_defined, Cond, Env, Expr, Quantity,
};
use crate::geom::label::{
    backdrop_steps, c_rect_open, fitted_bottom_padding, fitted_padding_covers_descent, top_padding,
    Backdrop,
};
use crate::geom::place::fractions_at;
use crate::geom::text_fit::{
    backdrop_of, bg_rect, c_drawn, content_steps, first_fractions, glyph_steps, is_plan,
    justify_y_named, labelled_rows, padding_px, second_fractions, target_of, text_corner, text_of,
    xform_of, FitPlan,
};
use crate::laws::data::{
    is_put, offsets_move_right_and_up, put, px, rows_lie_at_their_own_place, says,
    values_are_taken_for_what_they_are, zero_is_nought,
};
use crate::laws::label::{
    backdrops_are_filled_and_then_stroked, draws_backdrop, has_room, is_backdrop_of, is_glyph_paint,
    rectangles_with_room, turns_by_its_row, turns_go_against_the_clock,
};
use crate::laws::segment::panels_with_room;
use crate::num::Num;
use crate::projection::Projection;
use crate::resolve::{align_named, pick_for, Source};
use crate::scene::{Op, Paint, Path, Point, Rect, Spacing, Step, Xform};
use crate::theme::TextFitTheme;
use crate::value::Value;

verus! {

/// Every row with a text has a plan, once and in order, and no other.
pub proof fn rows_with_a_text_are_fitted_once(src: Source, n: nat, i: int)
    ensures
        labelled_rows(src, n).contains(i) <==> 0 <= i < n && (src.value_at(
            "text"@,
            i,
        ) matches Some(Value::String(s)) && s@.len() > 0),
        forall|j: int, k: int|
            0 <= j < k < labelled_rows(src, n).len() ==> (#[trigger] labelled_rows(src, n)[j]) < (
            #[trigger] labelled_rows(src, n)[k]),
        forall|k: int|
            0 <= k < labelled_rows(src, n).len() ==> 0 <= (#[trigger] labelled_rows(src, n)[k])
                < n,
    decreases n,
{
    let s = labelled_rows(src, n);
    if n > 0 {
        let t = labelled_rows(src, (n - 1) as nat);
        rows_with_a_text_are_fitted_once(src, (n - 1) as nat, i);
        if text_of(src, n - 1) is Some {
            assert(s[t.len() as int] == n - 1);
            if t.contains(i) {
                let k = choose|k: int| 0 <= k < t.len() && t[k] == i;
                assert(s[k] == i);
            }
            if s.contains(i) && i != n - 1 {
                let k = choose|k: int| 0 <= k < s.len() && s[k] == i;
                assert(t[k] == i);
            }
        }
    }
}

/// Whether a rectangle is that of row `i`: it reaches from where its own `x` and
/// `y` put one corner to where its own `x2` and `y2` put the other, each beside
/// that by its own offsets, whichever of them lies further left or up.
pub open spec fn is_target(r: Rect, src: Source, projection: Projection, i: int, env: Env) -> bool {
    let f = fractions_at(src, "x"@, "y"@, "x_band"@, "y_band"@, i);
    let g = fractions_at(src, "x2"@, "y2"@, "x2_band"@, "y2_band"@, i);
    let p = projection.point_at(f.a, f.b);
    let q = projection.point_at(g.a, g.b);
    let x = value(p.x, env) + px(says(src, "x_offset"@, i, 0real), env);
    let y = value(p.y, env) - px(says(src, "y_offset"@, i, 0real), env);
    let x2 = value(q.x, env) + px(says(src, "x2_offset"@, i, 0real), env);
    let y2 = value(q.y, env) - px(says(src, "y2_offset"@, i, 0real), env);
    &&& value(r.x0, env) == real_min(x, x2)
    &&& value(r.x1, env) == real_max(x, x2)
    &&& value(r.y0, env) == real_min(y, y2)
    &&& value(r.y1, env) == real_max(y, y2)
    &&& is_put(src, "x"@, i) && is_put(src, "y"@, i) ==> {
        &&& value(f.a, env) == put(src, "x"@, i, says(src, "x_band"@, i, 0real))
        &&& value(f.b, env) == put(src, "y"@, i, says(src, "y_band"@, i, 0real))
    }
    &&& is_put(src, "x2"@, i) && is_put(src, "y2"@, i) ==> {
        &&& value(g.a, env) == put(src, "x2"@, i, says(src, "x2_band"@, i, 0real))
        &&& value(g.b, env) == put(src, "y2"@, i, says(src, "y2_band"@, i, 0real))
    }
}

proof fn targets_reach_from_corner_to_corner(
    src: Source,
    projection: Projection,
    i: int,
    env: Env,
)
    ensures
        is_target(target_of(src, projection, i), src, projection, i, env),
{
    let f = fractions_at(src, "x"@, "y"@, "x_band"@, "y_band"@, i);
    let g = fractions_at(src, "x2"@, "y2"@, "x2_band"@, "y2_band"@, i);
    let p = projection.point_at(f.a, f.b);
    let q = projection.point_at(g.a, g.b);
    offsets_move_right_and_up(src, p, "x_offset"@, "y_offset"@, i, env);
    offsets_move_right_and_up(src, q, "x2_offset"@, "y2_offset"@, i, env);
    if is_put(src, "x"@, i) && is_put(src, "y"@, i) {
        rows_lie_at_their_own_place(src, "x"@, "y"@, "x_band"@, "y_band"@, i, env);
    }
    if is_put(src, "x2"@, i) && is_put(src, "y2"@, i) {
        rows_lie_at_their_own_place(src, "x2"@, "y2"@, "x2_band"@, "y2_band"@, i, env);
    }
}

/// A label is fitted into the rectangle of its row's own two corners: its lines are
/// as wide as that, and it fits where it is no wider and no taller. It is drawn
/// where the corners lie somewhere and leave room between them.
pub proof fn labels_are_fitted_into_their_rows_rectangle(
    p: FitPlan,
    src: Source,
    theme: TextFitTheme,
    projection: Projection,
    i: int,
    env: Env,
)
    requires
        is_plan(p, src, theme, projection, i),
    ensures
        ({
            let r = target_of(src, projection, i);
            let f = fractions_at(src, "x"@, "y"@, "x_band"@, "y_band"@, i);
            let g = fractions_at(src, "x2"@, "y2"@, "x2_band"@, "y2_band"@, i);
            &&& is_target(r, src, projection, i, env)
            &&& value(p.label.wrap, env) == value(r.x1, env) - value(r.x0, env)
            &&& holds(p.label.wraps, env)
            &&& holds(p.fits, env) <==> {
                &&& (env.var)(Quantity::TextWidth) <= value(r.x1, env) - value(r.x0, env)
                &&& (env.var)(Quantity::TextHeight) <= value(r.y1, env) - value(r.y0, env)
            }
            &&& holds(p.when, env) <==> {
                &&& (env.var)(Quantity::PanelX1) > (env.var)(Quantity::PanelX0)
                &&& (env.var)(Quantity::PanelY1) > (env.var)(Quantity::PanelY0)
                &&& well_defined(f.a, env) && well_defined(f.b, env)
                &&& well_defined(g.a, env) && well_defined(g.b, env)
                &&& has_room(r, env)
            }
            &&& value(p.min_pt, env) == real_max(
                says(src, "min_font_size"@, i, theme.min_font_pt.value()),
                1real / 2real,
            )
            &&& value(p.max_pt, env) == real_max(
                says(src, "max_font_size"@, i, theme.max_font_pt.value()),
                value(p.min_pt, env),
            )
        }),
{
    let r = target_of(src, projection, i);
    targets_reach_from_corner_to_corner(src, projection, i, env);
    let w = e_sub(r.x1, r.x0);
    let h = e_sub(r.y1, r.y0);
    let tw = Expr::Var(Quantity::TextWidth);
    let th = Expr::Var(Quantity::TextHeight);
    assert(value(w, env) == value(r.x1, env) - value(r.x0, env));
    assert(value(h, env) == value(r.y1, env) - value(r.y0, env));
    assert(value(tw, env) == (env.var)(Quantity::TextWidth));
    assert(value(th, env) == (env.var)(Quantity::TextHeight));
    assert(holds(c_ge(w, tw), env) == (value(w, env) >= value(tw, env)));
    assert(holds(c_ge(h, th), env) == (value(h, env) >= value(th, env)));
    panels_with_room(env);
    rectangles_with_room(r, env);
    let f = first_fractions(src, i);
    let g = second_fractions(src, i);
    let a = c_and(c_finite(f.a), c_finite(f.b));
    let b = c_and(c_finite(g.a), c_finite(g.b));
    assert(holds(a, env) == (holds(c_finite(f.a), env) && holds(c_finite(f.b), env)));
    assert(holds(b, env) == (holds(c_finite(g.a), env) && holds(c_finite(g.b), env)));
    assert(holds(c_and(a, b), env) == (holds(a, env) && holds(b, env)));
    let c = c_and(c_and(a, b), c_rect_open(r));
    assert(holds(c, env) == (holds(c_and(a, b), env) && holds(c_rect_open(r), env)));
    values_are_taken_for_what_they_are(src, "min_font_size"@, i, theme.min_font_pt);
    values_are_taken_for_what_they_are(src, "max_font_size"@, i, theme.max_font_pt);
    let lo = Expr::Lit(src.number_or("min_font_size"@, i, theme.min_font_pt));
    let hi = Expr::Lit(src.number_or("max_font_size"@, i, theme.max_font_pt));
    assert(value(lo, env) == src.number_or("min_font_size"@, i, theme.min_font_pt).value());
    assert(value(hi, env) == src.number_or("max_font_size"@, i, theme.max_font_pt).value());
    assert(value(e_half(), env) == 1real / 2real);
}

/// A fitted label is set as its row says, and where the row is silent as the theme
/// says: in its own colour and with its own opacity.
pub proof fn fitted_labels_are_set_as_their_row_says(
    p: FitPlan,
    src: Source,
    theme: TextFitTheme,
    projection: Projection,
    i: int,
)
    requires
        is_plan(p, src, theme, projection, i),
        text_of(src, i) is Some,
        0 <= i <= usize::MAX,
    ensures
        ({
            let l = p.label;
            &&& l.row == i
            &&& src.value_at("text"@, i) == Some(Value::String(l.text))
            &&& is_glyph_paint(l.fill, src, i, theme.fill)
            &&& match (src.color_at("text_stroke"@, i), theme.text_stroke) {
                (Some(c), _) => l.outline matches Some((d, w)) && d == c && w.value() == says(
                    src,
                    "text_linewidth"@,
                    i,
                    theme.text_linewidth_pt.value(),
                ),
                (None, Some(c)) => l.outline matches Some((d, w)) && d == c && w.value() == says(
                    src,
                    "text_linewidth"@,
                    i,
                    theme.text_linewidth_pt.value(),
                ),
                (None, None) => l.outline is None,
            }
            &&& src.number_at("weight"@, i) is None ==> l.style.weight == theme.weight
            &&& match src.value_at("italic"@, i) {
                Some(Value::Bool(b)) => l.style.italic == b,
                Some(Value::String(s)) => l.style.italic == (s@ == "italic"@ || s@ == "oblique"@),
                _ => !l.style.italic,
            }
            &&& l.style.spacing matches Spacing::Tracking(n) && n.value() == says(
                src,
                "tracking"@,
                i,
                theme.tracking.value(),
            )
            &&& match src.value_at("underline"@, i) {
                Some(Value::Bool(b)) => l.style.underline == b,
                _ => l.style.underline == theme.underline,
            }
            &&& match src.value_at("strikethrough"@, i) {
                Some(Value::Bool(b)) => l.style.strikethrough == b,
                _ => l.style.strikethrough == theme.strikethrough,
            }
            &&& match src.value_at("family"@, i) {
                Some(Value::String(s)) => l.style.family == Some(s),
                _ => l.style.family is None,
            }
            &&& match src.value_at("markdown"@, i) {
                Some(Value::Bool(b)) => l.markdown == b,
                _ => !l.markdown,
            }
            &&& l.align == align_named(src.string_at("justify_x"@, i))
        }),
{
    values_are_taken_for_what_they_are(src, "tracking"@, i, theme.tracking);
    values_are_taken_for_what_they_are(src, "text_linewidth"@, i, theme.text_linewidth_pt);
}

/// How much of the room that a label leaves above and below lies above it.
pub open spec fn asked_justify(src: Source, i: int) -> real {
    match src.value_at("justify_y"@, i) {
        Some(Value::String(s)) => if s@ == "center"@ || s@ == "centre"@ || s@ == "middle"@ {
            1real / 2real
        } else if s@ == "end"@ {
            1real
        } else {
            0real
        },
        _ => 0real,
    }
}

/// Whether the text of row `i` has its top left corner at a point: at the left edge
/// of its rectangle, and as far down as asked for, where there is room.
pub open spec fn is_fitted_corner(at: Point, r: Rect, src: Source, i: int, env: Env) -> bool {
    let left = value(r.y1, env) - value(r.y0, env) - (env.var)(Quantity::TextHeight);
    &&& value(at.x, env) == value(r.x0, env)
    &&& value(at.y, env) == value(r.y0, env) + asked_justify(src, i) * real_max(left, 0real)
}

/// Whether a rectangle is the backdrop of a text of row `i` that starts at a point:
/// its padding stands out on all sides, above by the descent at least, and below
/// without it.
pub open spec fn is_fitted_backdrop(b: Rect, at: Point, src: Source, i: int, env: Env) -> bool {
    let p = px(says(src, "bg_padding"@, i, 0real), env);
    let d = (env.var)(Quantity::TextDescent);
    let w = (env.var)(Quantity::TextWidth);
    let h = (env.var)(Quantity::TextHeight);
    &&& value(b.x0, env) == value(at.x, env) - p
    &&& value(b.x1, env) == value(at.x, env) + w + p
    &&& value(b.y0, env) == value(at.y, env) - real_max(p, d)
    &&& value(b.y1, env) == value(at.y, env) + h + real_max(p - d, 0real)
}

proof fn fitted_texts_start_in_their_rectangle(src: Source, i: int, r: Rect, env: Env)
    ensures
        is_fitted_corner(text_corner(src, i, r), r, src, i, env),
        is_fitted_backdrop(bg_rect(src, i, r), text_corner(src, i, r), src, i, env),
{
    let zero = Num { bits: 0 };
    zero_is_nought();
    values_are_taken_for_what_they_are(src, "bg_padding"@, i, zero);
    let l = Expr::Lit(src.number_or("bg_padding"@, i, zero));
    points_in_pixels(l, env);
    assert(value(l, env) == src.number_or("bg_padding"@, i, zero).value());
    let pad = padding_px(src, i);
    let p = px(says(src, "bg_padding"@, i, 0real), env);
    assert(value(pad, env) == p);
    let descent = Expr::Var(Quantity::TextDescent);
    let w = Expr::Var(Quantity::TextWidth);
    let h = Expr::Var(Quantity::TextHeight);
    assert(value(descent, env) == (env.var)(Quantity::TextDescent));
    assert(value(w, env) == (env.var)(Quantity::TextWidth));
    assert(value(h, env) == (env.var)(Quantity::TextHeight));
    fitted_padding_covers_descent(pad, descent, env);
    let top = top_padding(pad, descent);
    let bottom = fitted_bottom_padding(pad, descent);
    assert(0real / 1real == 0real && 1real / 1real == 1real && 2real / 1real == 2real);
    assert(value(e_int(0), env) == 0real && value(e_int(1), env) == 1real);
    assert(value(e_int(2), env) == 2real && value(e_half(), env) == 1real / 2real);
    let j = justify_y_named(src.string_at("justify_y"@, i));
    assert(value(j, env) == asked_justify(src, i));
    let tall = e_sub(r.y1, r.y0);
    let left = e_sub(tall, h);
    assert(value(tall, env) == value(r.y1, env) - value(r.y0, env));
    assert(value(left, env) == value(tall, env) - value(h, env));
    let room = e_max(left, e_int(0));
    assert(value(room, env) == real_max(value(left, env), 0real));
    assert(value(e_mul(j, room), env) == value(j, env) * value(room, env));
    let at = text_corner(src, i, r);
    assert(value(at.y, env) == value(r.y0, env) + value(j, env) * value(room, env));
    let x0 = e_sub(at.x, pad);
    let y0 = e_sub(at.y, top);
    assert(value(x0, env) == value(at.x, env) - p);
    assert(value(y0, env) == value(at.y, env) - value(top, env));
    assert(value(e_mul(e_int(2), pad), env) == 2real * p);
    let bw = e_add(w, e_mul(e_int(2), pad));
    assert(value(bw, env) == value(w, env) + 2real * p);
    assert(value(e_add(x0, bw), env) == value(x0, env) + value(bw, env));
    assert(value(e_add(h, top), env) == value(h, env) + value(top, env));
    let bh = e_add(e_add(h, top), bottom);
    assert(value(bh, env) == value(h, env) + value(top, env) + value(bottom, env));
    assert(value(e_add(y0, bh), env) == value(y0, env) + value(bh, env));
}

/// Whether a step draws the glyphs of row `i`, or their outline, in its rectangle
/// and in its colour.
pub open spec fn draws_fitted_glyphs(
    s: Step,
    r: Rect,
    t: Xform,
    when: Cond,
    src: Source,
    theme: TextFitTheme,
    i: int,
    env: Env,
) -> bool {
    let pick_id = pick_for(src.number_at("pick_id"@, i));
    let rich = src.value_at("markdown"@, i) == Some(Value::Bool(true));
    match s.op {
        Op::Text { at, xform, paint, pick } => {
            &&& !rich
            &&& is_fitted_corner(at, r, src, i, env)
            &&& xform == t
            &&& is_glyph_paint(paint, src, i, theme.fill)
            &&& pick == pick_id
            &&& holds(s.when, env) == holds(when, env)
        },
        Op::RichText { at, xform, pick } => {
            &&& rich
            &&& is_fitted_corner(at, r, src, i, env)
            &&& xform == t
            &&& pick == pick_id
            &&& holds(s.when, env) == holds(when, env)
        },
        Op::TextOutline { at, xform, paint, width } => {
            &&& !rich
            &&& is_fitted_corner(at, r, src, i, env)
            &&& xform == t
            &&& match src.color_at("text_stroke"@, i) {
                Some(c) => paint == (Paint { color: c, opacity: None }),
                None => theme.text_stroke == Some(paint.color) && paint.opacity is None,
            }
            &&& value(width, env) == px(
                says(src, "text_linewidth"@, i, theme.text_linewidth_pt.value()),
                env,
            )
            &&& holds(s.when, env) <==> holds(when, env) && value(width, env) > 0real
        },
        _ => false,
    }
}

/// Whether steps draw row `i` in its rectangle: its backdrop, and then its glyphs,
/// all of them turned by `t`.
pub open spec fn draws_content(
    s: Seq<Step>,
    r: Rect,
    t: Xform,
    when: Cond,
    src: Source,
    theme: TextFitTheme,
    i: int,
    env: Env,
) -> bool {
    let fills = if src.color_at("bg_fill"@, i) is Some {
        2int
    } else {
        0int
    };
    let strokes = if src.color_at("bg_stroke"@, i) is Some {
        2int
    } else {
        0int
    };
    let behind = fills + strokes;
    let rich = src.value_at("markdown"@, i) == Some(Value::Bool(true));
    let outlined = !rich && (src.color_at("text_stroke"@, i) is Some || theme.text_stroke is Some);
    &&& s.len() == behind + (if outlined {
        2int
    } else {
        1int
    })
    &&& forall|j: int| 0 <= j < fills ==> (#[trigger] s[j]).op is Fill
    &&& forall|j: int| fills <= j < behind ==> (#[trigger] s[j]).op is Stroke
    &&& forall|j: int|
        #![trigger s[j]]
        0 <= j < behind ==> exists|b: Backdrop, at: Point|
            {
                &&& #[trigger] is_fitted_backdrop(b.rect, at, src, i, env)
                &&& is_fitted_corner(at, r, src, i, env)
                &&& is_backdrop_of(b, src, i, theme.bg_linewidth_pt)
                &&& b.xform == t
                &&& draws_backdrop(s[j], b, when, env)
            }
    &&& forall|j: int|
        behind <= j < s.len() ==> draws_fitted_glyphs(#[trigger] s[j], r, t, when, src, theme, i, env)
    &&& outlined ==> s[behind].op is TextOutline && s[behind + 1].op is Text
    &&& !outlined && rich ==> s[behind].op is RichText
    &&& !outlined && !rich ==> s[behind].op is Text
}

proof fn contents_are_drawn_in_their_rectangle(
    src: Source,
    theme: TextFitTheme,
    i: int,
    r: Rect,
    t: Xform,
    when: Cond,
    env: Env,
)
    ensures
        draws_content(content_steps(src, theme, i, r, t, when), r, t, when, src, theme, i, env),
{
    let zero = Num { bits: 0 };
    zero_is_nought();
    fitted_texts_start_in_their_rectangle(src, i, r, env);
    values_are_taken_for_what_they_are(src, "bg_linewidth"@, i, theme.bg_linewidth_pt);
    values_are_taken_for_what_they_are(src, "bg_corner_radius"@, i, zero);
    values_are_taken_for_what_they_are(src, "text_linewidth"@, i, theme.text_linewidth_pt);
    let b = backdrop_of(src, theme, i, r, t);
    let at = text_corner(src, i, r);
    assert(is_fitted_backdrop(b.rect, at, src, i, env));
    assert(is_backdrop_of(b, src, i, theme.bg_linewidth_pt));
    let back = backdrop_steps(b, when);
    let g = glyph_steps(src, theme, i, r, t, when);
    let s = content_steps(src, theme, i, r, t, when);
    assert(s =~= back + g);
    let w = Expr::Lit(src.number_or("text_linewidth"@, i, theme.text_linewidth_pt));
    points_in_pixels(w, env);
    assert(value(w, env) == src.number_or(
        "text_linewidth"@,
        i,
        theme.text_linewidth_pt,
    ).value());
    assert(value(e_int(0), env) == 0real) by {
        assert(0real / 1real == 0real);
    }
    let wide = c_positive(e_px(w));
    assert(holds(wide, env) == (value(e_px(w), env) > 0real));
    assert(holds(c_and(when, wide), env) == (holds(when, env) && holds(wide, env)));
    assert(draws_fitted_glyphs(g[0], r, t, when, src, theme, i, env));
    assert(g.len() == 2 ==> draws_fitted_glyphs(g[1], r, t, when, src, theme, i, env));
    backdrops_are_filled_and_then_stroked(b, when, 0, env);
    let behind = back.len() as int;
    assert forall|j: int| #![trigger s[j]] 0 <= j < behind implies exists|b: Backdrop, at: Point|
        {
            &&& #[trigger] is_fitted_backdrop(b.rect, at, src, i, env)
            &&& is_fitted_corner(at, r, src, i, env)
            &&& is_backdrop_of(b, src, i, theme.bg_linewidth_pt)
            &&& b.xform == t
            &&& draws_backdrop(s[j], b, when, env)
        } by {
        backdrops_are_filled_and_then_stroked(b, when, j, env);
        assert(s[j] == back[j]);
    }
    assert forall|j: int| 0 <= j < behind implies {
        let fills = if src.color_at("bg_fill"@, i) is Some {
            2int
        } else {
            0int
        };
        (j < fills ==> (#[trigger] s[j]).op is Fill) && (fills <= j ==> s[j].op is Stroke)
    } by {
        backdrops_are_filled_and_then_stroked(b, when, j, env);
        assert(s[j] == back[j]);
    }
    assert forall|j: int| behind <= j < s.len() implies draws_fitted_glyphs(
        #[trigger] s[j],
        r,
        t,
        when,
        src,
        theme,
        i,
        env,
    ) by {
        assert(s[j] == g[j - behind]);
    }
    assert(s[behind] == g[0]);
    if g.len() == 2 {
        assert(s[behind + 1] == g[1]);
    }
}

/// A label that fits is drawn in its rectangle, turned about the middle of it. One
/// that does not is drawn in the same place between a clip to the rectangle and its
/// end; there the clip is turned, and nothing in it once more.
pub proof fn fitted_labels_are_drawn_in_their_rectangle(
    p: FitPlan,
    src: Source,
    theme: TextFitTheme,
    projection: Projection,
    i: int,
    env: Env,
)
    requires
        is_plan(p, src, theme, projection, i),
    ensures
        ({
            let r = target_of(src, projection, i);
            let c = p.clipped@;
            let n = c.len();
            &&& exists|at: Point, t: Xform|
                {
                    &&& value(at.x, env) == (value(r.x0, env) + value(r.x1, env)) / 2real
                    &&& value(at.y, env) == (value(r.y0, env) + value(r.y1, env)) / 2real
                    &&& #[trigger] turns_by_its_row(t, src, i, at, env)
                    &&& draws_content(p.fitted@, r, t, p.when, src, theme, i, env)
                    &&& n >= 2
                    &&& c[0].op == (Op::PushClip { path: Path::Rect(r), xform: t })
                    &&& c[0].when == p.when
                    &&& c[n - 1].op == Op::PopLayer
                    &&& c[n - 1].when == p.when
                    &&& draws_content(
                        c.subrange(1, n - 1),
                        r,
                        Xform::Identity,
                        p.when,
                        src,
                        theme,
                        i,
                        env,
                    )
                }
        }),
{
    let r = target_of(src, projection, i);
    let when = c_drawn(src, projection, i);
    let zero = Num { bits: 0 };
    let at = Point {
        x: e_mul(e_half(), e_add(r.x0, r.x1)),
        y: e_mul(e_half(), e_add(r.y0, r.y1)),
    };
    let t = xform_of(src, i, r);
    turns_go_against_the_clock(src.number_or("angle"@, i, zero), at, env);
    assert(turns_by_its_row(t, src, i, at, env));
    assert(value(e_half(), env) == 1real / 2real);
    let sx = e_add(r.x0, r.x1);
    let sy = e_add(r.y0, r.y1);
    assert(value(sx, env) == value(r.x0, env) + value(r.x1, env));
    assert(value(sy, env) == value(r.y0, env) + value(r.y1, env));
    assert(value(at.x, env) == (1real / 2real) * value(sx, env));
    assert(value(at.y, env) == (1real / 2real) * value(sy, env));
    contents_are_drawn_in_their_rectangle(src, theme, i, r, t, when, env);
    contents_are_drawn_in_their_rectangle(src, theme, i, r, Xform::Identity, when, env);
    let inner = content_steps(src, theme, i, r, Xform::Identity, when);
    let c = p.clipped@;
    assert(c.subrange(1, c.len() - 1) =~= inner);
}

} // verus!
