//! Labels at points.

use vstd::prelude::*;

use crate::expr::{
    c_and, c_finite, c_positive, e_add, e_int, e_mul, e_px, holds, points_in_pixels, real_max,
    value, well_defined, Env, Expr, Quantity,
};
use crate::geom::label::{
    backdrop_steps, bottom_padding, padding_covers_descent, top_padding, Backdrop, LabelPlan,
};
use crate::geom::place::fractions_at;
use crate::geom::text::{
    anchor_of, backdrop_of, bg_height, bg_rect, bg_width, c_drawn, corner_at, glyph_steps, has_bg,
    has_label, is_plan, padding_px, text_corner, wrap_px, xform_of,
};
use crate::laws::data::{
    is_put, offsets_move_right_and_up, put, px, room, rows_lie_at_their_own_place,
    rows_lie_where_the_data_put_them, says, values_are_taken_for_what_they_are, zero_is_nought,
};
use crate::laws::label::{
    backdrops_are_filled_and_then_stroked, draws_backdrop, is_backdrop_of, is_glyph_paint,
    turns_by_its_row, turns_go_against_the_clock,
};
use crate::laws::segment::panels_with_room;
use crate::num::Num;
use crate::projection::Projection;
use crate::resolve::{align_named, pick_for, Source};
use crate::scene::{Op, Paint, Point, Rect, Spacing, Step};
use crate::theme::TextTheme;
use crate::value::Value;

verus! {

/// A row has a label exactly where it has a text that is not empty and a font size
/// that is finite and above zero, its own or the theme's.
pub proof fn labels_need_a_text_and_a_size(src: Source, theme: TextTheme, i: int)
    ensures
        has_label(src, theme, i) <==> {
            &&& src.value_at("text"@, i) matches Some(Value::String(s))
            &&& s@.len() > 0
            &&& match src.number_at("size"@, i) {
                Some(n) => n.finite() && n.above_zero(),
                None => theme.size_pt.finite() && theme.size_pt.above_zero(),
            }
        },
{
}

/// A label is set as its row says, and where the row is silent as the theme says.
/// Its lines are broken at so many points and so many bands across, where that
/// comes to something.
pub proof fn labels_are_set_as_their_row_says(
    p: LabelPlan,
    src: Source,
    theme: TextTheme,
    projection: Projection,
    i: int,
    env: Env,
)
    requires
        is_plan(p, src, theme, projection, i),
        has_label(src, theme, i),
        0 <= i <= usize::MAX,
    ensures
        ({
            let l = p.label;
            &&& l.row == i
            &&& src.value_at("text"@, i) == Some(Value::String(l.text))
            &&& match src.number_at("size"@, i) {
                Some(n) => l.style.size_pt == n,
                None => l.style.size_pt == theme.size_pt,
            }
            &&& src.number_at("weight"@, i) is None ==> l.style.weight == theme.weight
            &&& match src.value_at("italic"@, i) {
                Some(Value::Bool(b)) => l.style.italic == b,
                Some(Value::String(s)) => l.style.italic == (s@ == "italic"@ || s@ == "oblique"@),
                _ => !l.style.italic,
            }
            &&& l.style.spacing matches Spacing::Points(n) && n.value() == says(
                src,
                "letter_spacing"@,
                i,
                theme.letter_spacing_pt.value(),
            )
            &&& match src.value_at("underline"@, i) {
                Some(Value::Bool(b)) => l.style.underline == b,
                _ => l.style.underline == theme.underline,
            }
            &&& match src.value_at("strikethrough"@, i) {
                Some(Value::Bool(b)) => l.style.strikethrough == b,
                _ => l.style.strikethrough == theme.strikethrough,
            }
            &&& match src.value_at("family"@, i) {
                Some(Value::String(s)) => l.style.family == Some(s),
                _ => l.style.family is None,
            }
            &&& match src.value_at("markdown"@, i) {
                Some(Value::Bool(b)) => l.markdown == b,
                _ => l.markdown == theme.markdown,
            }
            &&& is_glyph_paint(l.fill, src, i, theme.fill)
            &&& match (src.color_at("text_stroke"@, i), theme.text_stroke) {
                (Some(c), _) => l.outline matches Some((d, w)) && d == c && w.value() == says(
                    src,
                    "text_linewidth"@,
                    i,
                    theme.text_linewidth_pt.value(),
                ),
                (None, Some(c)) => l.outline matches Some((d, w)) && d == c && w.value() == says(
                    src,
                    "text_linewidth"@,
                    i,
                    theme.text_linewidth_pt.value(),
                ),
                (None, None) => l.outline is None,
            }
            &&& l.align == align_named(src.string_at("justify_x"@, i))
            &&& is_put(src, "x"@, i) ==> value(l.wrap, env) == px(
                says(src, "width"@, i, 0real),
                env,
            ) + says(src, "width_band"@, i, 0real) * (room(src, "x"@, i) * ((env.var)(
                Quantity::PanelX1,
            ) - (env.var)(Quantity::PanelX0)))
            &&& holds(l.wraps, env) <==> value(l.wrap, env) > 0real && well_defined(l.wrap, env)
        }),
{
    let zero = Num { bits: 0 };
    zero_is_nought();
    values_are_taken_for_what_they_are(src, "letter_spacing"@, i, theme.letter_spacing_pt);
    values_are_taken_for_what_they_are(src, "text_linewidth"@, i, theme.text_linewidth_pt);
    values_are_taken_for_what_they_are(src, "width"@, i, zero);
    values_are_taken_for_what_they_are(src, "width_band"@, i, zero);
    let w = Expr::Lit(src.number_or("width"@, i, zero));
    let b = Expr::Lit(src.number_or("width_band"@, i, zero));
    let r = Expr::Lit(src.band_width("x"@, i));
    points_in_pixels(w, env);
    assert(value(w, env) == src.number_or("width"@, i, zero).value());
    assert(value(b, env) == src.number_or("width_band"@, i, zero).value());
    assert(value(r, env) == src.band_width("x"@, i).value());
    assert(value(Expr::Var(Quantity::PanelX0), env) == (env.var)(Quantity::PanelX0));
    assert(value(Expr::Var(Quantity::PanelX1), env) == (env.var)(Quantity::PanelX1));
    let pw = crate::expr::e_panel_w();
    assert(value(pw, env) == (env.var)(Quantity::PanelX1) - (env.var)(Quantity::PanelX0));
    assert(value(e_mul(r, pw), env) == value(r, env) * value(pw, env));
    assert(value(e_mul(b, e_mul(r, pw)), env) == value(b, env) * value(e_mul(r, pw), env));
    if is_put(src, "x"@, i) {
        rows_lie_where_the_data_put_them(src, "x"@, i, zero, env);
    }
    let wrap = wrap_px(src, i);
    assert(value(e_int(0), env) == 0real) by {
        assert(0real / 1real == 0real);
    }
    assert(holds(c_positive(wrap), env) == (value(wrap, env) > 0real));
    assert(holds(c_finite(wrap), env) == well_defined(wrap, env));
}

/// Whether a point is the anchor of row `i`: where its own `x` and `y` put it, and
/// beside that by its offsets.
pub open spec fn is_anchor(at: Point, src: Source, projection: Projection, i: int, env: Env) -> bool {
    let f = fractions_at(src, "x"@, "y"@, "x_band"@, "y_band"@, i);
    let p = projection.point_at(f.a, f.b);
    &&& value(at.x, env) == value(p.x, env) + px(says(src, "x_offset"@, i, 0real), env)
    &&& value(at.y, env) == value(p.y, env) - px(says(src, "y_offset"@, i, 0real), env)
    &&& is_put(src, "x"@, i) && is_put(src, "y"@, i) ==> {
        &&& value(f.a, env) == put(src, "x"@, i, says(src, "x_band"@, i, 0real))
        &&& value(f.b, env) == put(src, "y"@, i, says(src, "y_band"@, i, 0real))
    }
}

proof fn anchors_lie_at_their_own_place(src: Source, projection: Projection, i: int, env: Env)
    ensures
        is_anchor(anchor_of(src, projection, i), src, projection, i, env),
{
    let f = fractions_at(src, "x"@, "y"@, "x_band"@, "y_band"@, i);
    if is_put(src, "x"@, i) && is_put(src, "y"@, i) {
        rows_lie_at_their_own_place(src, "x"@, "y"@, "x_band"@, "y_band"@, i, env);
    }
    offsets_move_right_and_up(
        src,
        projection.point_at(f.a, f.b),
        "x_offset"@,
        "y_offset"@,
        i,
        env,
    );
}

/// The padding of a backdrop that a row asks for, in pixels.
pub open spec fn asked_padding(src: Source, i: int, env: Env) -> real {
    px(says(src, "bg_padding"@, i, 0real), env)
}

/// How tall the backdrop of a text of a height is: with the padding above and below
/// it, or with the descent above it alone where the padding is less.
pub open spec fn padded_height(text: real, padding: real, descent: real) -> real {
    if padding >= descent {
        text + 2real * padding
    } else {
        text + descent
    }
}

/// Whether the text of row `i` has its top left corner at a point: the box that it
/// fills, with its backdrop if it has one, is anchored so that the fractions
/// `anchor_x` and `anchor_y` of it lie left of and above the anchor.
pub open spec fn is_text_corner(
    at: Point,
    anchor: Point,
    src: Source,
    theme: TextTheme,
    i: int,
    env: Env,
) -> bool {
    let w = (env.var)(Quantity::TextWidth);
    let h = (env.var)(Quantity::TextHeight);
    let d = (env.var)(Quantity::TextDescent);
    let ax = says(src, "anchor_x"@, i, theme.anchor_x.value());
    let ay = says(src, "anchor_y"@, i, theme.anchor_y.value());
    let p = asked_padding(src, i, env);
    if src.color_at("bg_fill"@, i) is Some || src.color_at("bg_stroke"@, i) is Some {
        &&& value(at.x, env) - p + ax * (w + 2real * p) == value(anchor.x, env)
        &&& value(at.y, env) - real_max(p, d) + ay * padded_height(h, p, d) == value(anchor.y, env)
    } else {
        &&& value(at.x, env) + ax * w == value(anchor.x, env)
        &&& value(at.y, env) + ay * h == value(anchor.y, env)
    }
}

/// Whether a rectangle is the backdrop of row `i`: as large as its text and the
/// padding, and anchored like it.
pub open spec fn is_text_backdrop(
    r: Rect,
    anchor: Point,
    src: Source,
    theme: TextTheme,
    i: int,
    env: Env,
) -> bool {
    let w = (env.var)(Quantity::TextWidth);
    let h = (env.var)(Quantity::TextHeight);
    let d = (env.var)(Quantity::TextDescent);
    let ax = says(src, "anchor_x"@, i, theme.anchor_x.value());
    let ay = says(src, "anchor_y"@, i, theme.anchor_y.value());
    let p = asked_padding(src, i, env);
    &&& value(r.x1, env) - value(r.x0, env) == w + 2real * p
    &&& value(r.y1, env) - value(r.y0, env) == padded_height(h, p, d)
    &&& value(r.x0, env) + ax * (w + 2real * p) == value(anchor.x, env)
    &&& value(r.y0, env) + ay * padded_height(h, p, d) == value(anchor.y, env)
}

proof fn texts_hang_off_their_anchor(
    src: Source,
    theme: TextTheme,
    i: int,
    anchor: Point,
    env: Env,
)
    ensures
        is_text_corner(text_corner(src, theme, i, anchor), anchor, src, theme, i, env),
        is_text_backdrop(bg_rect(src, theme, i, anchor), anchor, src, theme, i, env),
{
    let zero = Num { bits: 0 };
    zero_is_nought();
    values_are_taken_for_what_they_are(src, "bg_padding"@, i, zero);
    values_are_taken_for_what_they_are(src, "anchor_x"@, i, theme.anchor_x);
    values_are_taken_for_what_they_are(src, "anchor_y"@, i, theme.anchor_y);
    let l = Expr::Lit(src.number_or("bg_padding"@, i, zero));
    points_in_pixels(l, env);
    assert(value(l, env) == src.number_or("bg_padding"@, i, zero).value());
    let pad = padding_px(src, i);
    let p = asked_padding(src, i, env);
    assert(value(pad, env) == p);
    let descent = Expr::Var(Quantity::TextDescent);
    let w = Expr::Var(Quantity::TextWidth);
    let h = Expr::Var(Quantity::TextHeight);
    assert(value(descent, env) == (env.var)(Quantity::TextDescent));
    assert(value(w, env) == (env.var)(Quantity::TextWidth));
    assert(value(h, env) == (env.var)(Quantity::TextHeight));
    padding_covers_descent(pad, descent, env);
    let top = top_padding(pad, descent);
    let bottom = bottom_padding(pad, descent);
    assert(value(e_int(2), env) == 2real) by {
        assert(2real / 1real == 2real);
    }
    assert(value(e_mul(e_int(2), pad), env) == 2real * p);
    let bw = bg_width(src, i);
    let bh = bg_height(src, i);
    assert(value(bw, env) == value(w, env) + 2real * p);
    assert(value(e_add(h, top), env) == value(h, env) + value(top, env));
    assert(value(bh, env) == value(h, env) + value(top, env) + value(bottom, env));
    assert(value(bh, env) == padded_height(value(h, env), p, value(descent, env)));
    let ax = Expr::Lit(src.number_or("anchor_x"@, i, theme.anchor_x));
    let ay = Expr::Lit(src.number_or("anchor_y"@, i, theme.anchor_y));
    assert(value(ax, env) == src.number_or("anchor_x"@, i, theme.anchor_x).value());
    assert(value(ay, env) == src.number_or("anchor_y"@, i, theme.anchor_y).value());
    assert(value(e_mul(ax, w), env) == value(ax, env) * value(w, env));
    assert(value(e_mul(ay, h), env) == value(ay, env) * value(h, env));
    assert(value(e_mul(ax, bw), env) == value(ax, env) * value(bw, env));
    assert(value(e_mul(ay, bh), env) == value(ay, env) * value(bh, env));
    let c = corner_at(src, theme, i, anchor, bw, bh);
    assert(value(c.x, env) == value(anchor.x, env) - value(ax, env) * value(bw, env));
    assert(value(c.y, env) == value(anchor.y, env) - value(ay, env) * value(bh, env));
    assert(value(e_add(c.x, pad), env) == value(c.x, env) + p);
    assert(value(e_add(c.y, top), env) == value(c.y, env) + value(top, env));
    assert(value(e_add(c.x, bw), env) == value(c.x, env) + value(bw, env));
    assert(value(e_add(c.y, bh), env) == value(c.y, env) + value(bh, env));
    let e = corner_at(src, theme, i, anchor, w, h);
    assert(value(e.x, env) == value(anchor.x, env) - value(ax, env) * value(w, env));
    assert(value(e.y, env) == value(anchor.y, env) - value(ay, env) * value(h, env));
}

/// Whether a row is drawn: the panel has room, and the row lies somewhere.
pub open spec fn is_drawn(src: Source, i: int, env: Env) -> bool {
    let f = fractions_at(src, "x"@, "y"@, "x_band"@, "y_band"@, i);
    &&& (env.var)(Quantity::PanelX1) > (env.var)(Quantity::PanelX0)
    &&& (env.var)(Quantity::PanelY1) > (env.var)(Quantity::PanelY0)
    &&& well_defined(f.a, env) && well_defined(f.b, env)
}

proof fn rows_are_drawn_where_they_lie(src: Source, i: int, env: Env)
    ensures
        holds(c_drawn(src, i), env) <==> is_drawn(src, i, env),
{
    let f = fractions_at(src, "x"@, "y"@, "x_band"@, "y_band"@, i);
    panels_with_room(env);
    let both = c_and(c_finite(f.a), c_finite(f.b));
    assert(holds(c_finite(f.a), env) == well_defined(f.a, env));
    assert(holds(c_finite(f.b), env) == well_defined(f.b, env));
    assert(holds(both, env) == (holds(c_finite(f.a), env) && holds(c_finite(f.b), env)));
}

/// Whether a step draws the glyphs of row `i`, or their outline, at its anchor, in
/// its colour, turned about the anchor.
pub open spec fn draws_glyphs(
    s: Step,
    p: LabelPlan,
    anchor: Point,
    src: Source,
    theme: TextTheme,
    i: int,
    env: Env,
) -> bool {
    let pick_id = pick_for(src.number_at("pick_id"@, i));
    match s.op {
        Op::Text { at, xform, paint, pick } => {
            &&& !p.label.markdown
            &&& is_text_corner(at, anchor, src, theme, i, env)
            &&& turns_by_its_row(xform, src, i, anchor, env)
            &&& is_glyph_paint(paint, src, i, theme.fill)
            &&& pick == pick_id
            &&& holds(s.when, env) <==> is_drawn(src, i, env)
        },
        Op::RichText { at, xform, pick } => {
            &&& p.label.markdown
            &&& is_text_corner(at, anchor, src, theme, i, env)
            &&& turns_by_its_row(xform, src, i, anchor, env)
            &&& pick == pick_id
            &&& holds(s.when, env) <==> is_drawn(src, i, env)
        },
        Op::TextOutline { at, xform, paint, width } => {
            &&& !p.label.markdown
            &&& is_text_corner(at, anchor, src, theme, i, env)
            &&& turns_by_its_row(xform, src, i, anchor, env)
            &&& match src.color_at("text_stroke"@, i) {
                Some(c) => paint == (Paint { color: c, opacity: None }),
                None => theme.text_stroke == Some(paint.color) && paint.opacity is None,
            }
            &&& value(width, env) == px(
                says(src, "text_linewidth"@, i, theme.text_linewidth_pt.value()),
                env,
            )
            &&& holds(s.when, env) <==> is_drawn(src, i, env) && value(width, env) > 0real
        },
        _ => false,
    }
}

/// What is drawn for a label is its backdrop, if it has a colour for it, and then
/// its glyphs: their outline first where there is one, and in markdown as one. All
/// of it is anchored at the row's own place and turned about it.
pub proof fn labels_hang_off_their_anchor(
    p: LabelPlan,
    src: Source,
    theme: TextTheme,
    projection: Projection,
    i: int,
    j: int,
    env: Env,
)
    requires
        is_plan(p, src, theme, projection, i),
    ensures
        ({
            let s = p.steps@;
            let anchor = anchor_of(src, projection, i);
            let fills = if src.color_at("bg_fill"@, i) is Some {
                2int
            } else {
                0int
            };
            let strokes = if src.color_at("bg_stroke"@, i) is Some {
                2int
            } else {
                0int
            };
            let behind = fills + strokes;
            let outlined = !p.label.markdown && (src.color_at("text_stroke"@, i) is Some
                || theme.text_stroke is Some);
            &&& is_anchor(anchor, src, projection, i, env)
            &&& s.len() == behind + (if outlined {
                2int
            } else {
                1int
            })
            &&& 0 <= j < fills ==> s[j].op is Fill
            &&& fills <= j < behind ==> s[j].op is Stroke
            &&& 0 <= j < behind ==> exists|b: Backdrop|
                {
                    &&& #[trigger] is_backdrop_of(b, src, i, theme.bg_linewidth_pt)
                    &&& is_text_backdrop(b.rect, anchor, src, theme, i, env)
                    &&& turns_by_its_row(b.xform, src, i, anchor, env)
                    &&& draws_backdrop(s[j], b, c_drawn(src, i), env)
                }
            &&& behind <= j < s.len() ==> draws_glyphs(s[j], p, anchor, src, theme, i, env)
            &&& outlined ==> s[behind].op is TextOutline && s[behind + 1].op is Text
            &&& !outlined && p.label.markdown ==> s[behind].op is RichText
            &&& !outlined && !p.label.markdown ==> s[behind].op is Text
            &&& holds(c_drawn(src, i), env) <==> is_drawn(src, i, env)
        }),
{
    let anchor = anchor_of(src, projection, i);
    let zero = Num { bits: 0 };
    zero_is_nought();
    anchors_lie_at_their_own_place(src, projection, i, env);
    texts_hang_off_their_anchor(src, theme, i, anchor, env);
    rows_are_drawn_where_they_lie(src, i, env);
    turns_go_against_the_clock(src.number_or("angle"@, i, zero), anchor, env);
    values_are_taken_for_what_they_are(src, "bg_linewidth"@, i, theme.bg_linewidth_pt);
    values_are_taken_for_what_they_are(src, "bg_corner_radius"@, i, zero);
    values_are_taken_for_what_they_are(src, "text_linewidth"@, i, theme.text_linewidth_pt);
    assert(turns_by_its_row(xform_of(src, i, anchor), src, i, anchor, env));
    let b = backdrop_of(src, theme, i, anchor);
    let drawn = c_drawn(src, i);
    backdrops_are_filled_and_then_stroked(b, drawn, j, env);
    assert(is_backdrop_of(b, src, i, theme.bg_linewidth_pt));
    let back = if has_bg(src, i) {
        backdrop_steps(b, drawn)
    } else {
        Seq::empty()
    };
    let g = glyph_steps(src, theme, i, anchor);
    assert(p.steps@ =~= back + g);
    let w = Expr::Lit(src.number_or("text_linewidth"@, i, theme.text_linewidth_pt));
    points_in_pixels(w, env);
    assert(value(w, env) == src.number_or(
        "text_linewidth"@,
        i,
        theme.text_linewidth_pt,
    ).value());
    assert(value(e_int(0), env) == 0real) by {
        assert(0real / 1real == 0real);
    }
    let wide = c_positive(e_px(w));
    assert(holds(wide, env) == (value(e_px(w), env) > 0real));
    assert(holds(c_and(drawn, wide), env) == (holds(drawn, env) && holds(wide, env)));
    assert(draws_glyphs(g[0], p, anchor, src, theme, i, env));
    assert(g.len() == 2 ==> draws_glyphs(g[1], p, anchor, src, theme, i, env));
    if 0 <= j < back.len() {
        assert(p.steps@[j] == back[j]);
    } else if back.len() <= j < p.steps@.len() {
        assert(p.steps@[j] == g[j - back.len()]);
    }
    assert(p.steps@[back.len() as int] == g[0]);
    if g.len() == 2 {
        assert(p.steps@[back.len() as int + 1] == g[1]);
    }
}

} // verus!
