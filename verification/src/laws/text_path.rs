//! Labels along curves.

use vstd::prelude::*;

use crate::expr::{
    c_and, c_finite, c_finite_positive, c_ge, c_gt, c_positive, e_add, e_atan2, e_half, e_int,
    e_mul, e_neg, e_px, e_sub, holds, points_in_pixels, real_clamp, value, well_defined, Env, Expr,
    Quantity,
};
use crate::geom::text_path::{
    baseline_of, e_body, e_half_advance, e_slack, e_tangent, found, glyph_distance, glyph_ops,
    has_label, is_plan, labelled_marks, last_placed, mostly_upended, ops_of, parts_of, rule_beside,
    rule_distance, rule_end, rule_of, rule_ops, shift_of, stamp_of, upended, vertex_of, CurvePart,
    PathLabel, PathOp, HALF,
};
use crate::laws::data::{
    is_put, offsets_move_right_and_up, one_is_one, put, px, rows_lie_at_their_own_place, says,
    values_are_taken_for_what_they_are, zero_is_nought,
};
use crate::laws::label::is_glyph_paint;
use crate::laws::segment::panels_with_room;
use crate::marks::MarkSlot;
use crate::num::Num;
use crate::projection::Projection;
use crate::resolve::{pick_for, Source};
use crate::scene::{HAlign, Paint, Spacing};
use crate::theme::TextPathTheme;
use crate::value::Value;

verus! {

/// The vertices of a label's curve are its mark's rows in order, each where the
/// row's own data put it.
pub proof fn curves_run_through_the_rows_own_places(
    p: PathLabel,
    src: Source,
    theme: TextPathTheme,
    projection: Projection,
    mark: MarkSlot,
    k: int,
    env: Env,
)
    requires
        is_plan(p, src, theme, projection, mark),
        0 <= k < mark.rows@.len(),
    ensures
        p.vertices@.len() == mark.rows@.len(),
        ({
            let v = p.vertices@[k];
            let i = mark.rows@[k] as int;
            let at = projection.point_at(v.frac.a, v.frac.b);
            &&& v.row == i
            &&& is_put(src, "x"@, i) && is_put(src, "y"@, i) ==> {
                &&& value(v.frac.a, env) == put(src, "x"@, i, says(src, "x_band"@, i, 0real))
                &&& value(v.frac.b, env) == put(src, "y"@, i, says(src, "y_band"@, i, 0real))
            }
            &&& value(v.at.x, env) == value(at.x, env) + px(says(src, "x_offset"@, i, 0real), env)
            &&& value(v.at.y, env) == value(at.y, env) - px(says(src, "y_offset"@, i, 0real), env)
            &&& holds(v.placed, env) <==> well_defined(v.frac.a, env) && well_defined(
                v.frac.b,
                env,
            )
        }),
{
    let v = p.vertices@[k];
    let i = mark.rows@[k] as int;
    assert(v == vertex_of(src, projection, i));
    if is_put(src, "x"@, i) && is_put(src, "y"@, i) {
        rows_lie_at_their_own_place(src, "x"@, "y"@, "x_band"@, "y_band"@, i, env);
    }
    offsets_move_right_and_up(
        src,
        projection.point_at(v.frac.a, v.frac.b),
        "x_offset"@,
        "y_offset"@,
        i,
        env,
    );
    assert(holds(c_finite(v.frac.a), env) == well_defined(v.frac.a, env));
    assert(holds(c_finite(v.frac.b), env) == well_defined(v.frac.b, env));
}

/// Everything but its curve a label takes from the first row of its mark, and where
/// that is silent from the theme. It is drawn where the panel has room and the
/// curve has a length.
pub proof fn path_labels_are_set_as_their_first_row_says(
    p: PathLabel,
    src: Source,
    theme: TextPathTheme,
    projection: Projection,
    mark: MarkSlot,
    env: Env,
)
    requires
        is_plan(p, src, theme, projection, mark),
        has_label(src, theme, mark.first_row as int),
    ensures
        ({
            let i = mark.first_row as int;
            let l = p.label;
            &&& holds(p.when, env) <==> {
                &&& (env.var)(Quantity::PanelX1) > (env.var)(Quantity::PanelX0)
                &&& (env.var)(Quantity::PanelY1) > (env.var)(Quantity::PanelY0)
                &&& (env.var)(Quantity::PathLength) > 0real
            }
            &&& l.row == i
            &&& src.value_at("text"@, i) == Some(Value::String(l.text))
            &&& match src.number_at("size"@, i) {
                Some(n) => l.style.size_pt == n,
                None => l.style.size_pt == theme.size_pt,
            }
            &&& src.number_at("weight"@, i) is None ==> l.style.weight == theme.weight
            &&& match src.value_at("italic"@, i) {
                Some(Value::Bool(b)) => l.style.italic == b,
                Some(Value::String(s)) => l.style.italic == (s@ == "italic"@ || s@ == "oblique"@),
                _ => !l.style.italic,
            }
            &&& l.style.spacing matches Spacing::Tracking(n) && n.value() == says(
                src,
                "tracking"@,
                i,
                theme.tracking.value(),
            )
            &&& match src.value_at("underline"@, i) {
                Some(Value::Bool(b)) => l.style.underline == b,
                _ => l.style.underline == theme.underline,
            }
            &&& match src.value_at("strikethrough"@, i) {
                Some(Value::Bool(b)) => l.style.strikethrough == b,
                _ => l.style.strikethrough == theme.strikethrough,
            }
            &&& match src.value_at("family"@, i) {
                Some(Value::String(s)) => l.style.family == Some(s),
                _ => l.style.family is None,
            }
            &&& match src.value_at("markdown"@, i) {
                Some(Value::Bool(b)) => l.markdown == b,
                _ => l.markdown == theme.markdown,
            }
            &&& is_glyph_paint(l.fill, src, i, theme.fill)
            &&& l.outline is None
            &&& l.align == HAlign::Start
            &&& !holds(l.wraps, env)
            &&& p.offset.value() == says(src, "offset"@, i, 0real)
            &&& p.justify.value() == says(src, "justify_x"@, i, 0real)
            &&& p.anchor.value() == says(src, "anchor_y"@, i, 1real / 2real)
            &&& p.angle.value() == says(src, "angle"@, i, 0real)
            &&& match src.value_at("upright"@, i) {
                Some(Value::Bool(b)) => p.upright == b,
                _ => !p.upright,
            }
            &&& p.pick == pick_for(src.number_at("pick_id"@, i))
            &&& match p.outline {
                Some(o) => {
                    &&& match src.color_at("text_stroke"@, i) {
                        Some(c) => o.paint == (Paint { color: c, opacity: None }),
                        None => theme.text_stroke == Some(o.paint.color) && o.paint.opacity is None,
                    }
                    &&& value(o.width, env) == px(
                        says(src, "text_linewidth"@, i, theme.text_linewidth_pt.value()),
                        env,
                    )
                    &&& holds(o.when, env) <==> value(o.width, env) > 0real
                },
                None => {
                    ||| src.color_at("text_stroke"@, i) is None && theme.text_stroke is None
                    ||| !(match src.number_at("text_linewidth"@, i) {
                        Some(n) => n.above_zero(),
                        None => theme.text_linewidth_pt.above_zero(),
                    })
                },
            }
        }),
{
    let i = mark.first_row as int;
    let zero = Num { bits: 0 };
    zero_is_nought();
    one_is_one();
    panels_with_room(env);
    values_are_taken_for_what_they_are(src, "tracking"@, i, theme.tracking);
    values_are_taken_for_what_they_are(src, "text_linewidth"@, i, theme.text_linewidth_pt);
    values_are_taken_for_what_they_are(src, "offset"@, i, zero);
    values_are_taken_for_what_they_are(src, "justify_x"@, i, zero);
    values_are_taken_for_what_they_are(src, "angle"@, i, zero);
    values_are_taken_for_what_they_are(src, "anchor_y"@, i, Num { bits: HALF });
    let w = Expr::Lit(src.number_or("text_linewidth"@, i, theme.text_linewidth_pt));
    points_in_pixels(w, env);
    assert(value(w, env) == src.number_or(
        "text_linewidth"@,
        i,
        theme.text_linewidth_pt,
    ).value());
    assert(value(e_int(0), env) == 0real) by {
        assert(0real / 1real == 0real);
    }
    assert(holds(c_positive(e_px(w)), env) == (value(e_px(w), env) > 0real));
    let len = Expr::Var(Quantity::PathLength);
    assert(value(len, env) == (env.var)(Quantity::PathLength));
    assert(holds(c_positive(len), env) == (value(len, env) > 0real));
    assert(holds(crate::expr::c_not(crate::expr::Cond::Always), env) == !holds(
        crate::expr::Cond::Always,
        env,
    ));
}

/// A mark has a label exactly where its first row has a text that is not empty and
/// a font size that is finite and above zero.
pub proof fn path_labels_need_a_text_and_a_size(src: Source, theme: TextPathTheme, i: int)
    ensures
        has_label(src, theme, i) <==> {
            &&& src.value_at("text"@, i) matches Some(Value::String(s))
            &&& s@.len() > 0
            &&& match src.number_at("size"@, i) {
                Some(n) => n.finite() && n.above_zero(),
                None => theme.size_pt.finite() && theme.size_pt.above_zero(),
            }
        },
{
}

/// Every mark with a label has a plan, and no other.
pub proof fn marks_with_a_label_are_drawn(
    src: Source,
    theme: TextPathTheme,
    marks: Seq<MarkSlot>,
    n: nat,
)
    requires
        n <= marks.len(),
    ensures
        forall|m: int|
            0 <= m < n && has_label(src, theme, (#[trigger] marks[m]).first_row as int)
                ==> labelled_marks(src, theme, marks, n).contains(marks[m]),
        forall|k: int|
            0 <= k < labelled_marks(src, theme, marks, n).len() ==> has_label(
                src,
                theme,
                (#[trigger] labelled_marks(src, theme, marks, n)[k]).first_row as int,
            ),
        labelled_marks(src, theme, marks, n).len() <= n,
    decreases n,
{
    if n > 0 {
        marks_with_a_label_are_drawn(src, theme, marks, (n - 1) as nat);
        let s = labelled_marks(src, theme, marks, n);
        let t = labelled_marks(src, theme, marks, (n - 1) as nat);
        assert forall|m: int|
            0 <= m < n && has_label(
                src,
                theme,
                (#[trigger] marks[m]).first_row as int,
            ) implies s.contains(marks[m]) by {
            if m < n - 1 {
                let k = choose|k: int| 0 <= k < t.len() && t[k] == marks[m];
                assert(s[k] == marks[m]);
            } else {
                assert(s[t.len() as int] == marks[m]);
            }
        }
    }
}

/// How far along the direction of reading a glyph lies: as far as the offset asks
/// for, the part of the slack that lies before the label, the glyph's own place in
/// the label, and half its width. Read from the other end, the part of the slack
/// before the label is the one that was behind it.
pub open spec fn reading_place(offset: real, justify: real, flipped: bool, env: Env) -> real {
    let slack = (env.var)(Quantity::PathLength) - (env.var)(Quantity::TextWidth);
    let before = if flipped {
        1real - justify
    } else {
        justify
    };
    px(offset, env) + before * slack + (env.var)(Quantity::GlyphX) + (env.var)(
        Quantity::GlyphAdvance,
    ) / 2real
}

/// A glyph is put down by its middle, on the curve where reading gets to it, across
/// the curve by its anchor, along the tangent and turned on its spot; and it is left
/// out where the curve does not reach.
pub proof fn glyphs_stand_where_reading_gets_to_them(
    offset: Num,
    justify: Num,
    anchor: Num,
    angle: Num,
    flipped: bool,
    env: Env,
)
    ensures
        ({
            let s = stamp_of(offset, justify, anchor, angle, flipped);
            let d = reading_place(offset.value(), justify.value(), flipped, env);
            let length = (env.var)(Quantity::PathLength);
            let tx = (env.var)(Quantity::TangentX);
            let ty = (env.var)(Quantity::TangentY);
            let up = (env.var)(Quantity::TextAscent);
            let down = (env.var)(Quantity::TextDescent);
            &&& value(s.along, env) == (if flipped {
                length - d
            } else {
                d
            })
            &&& holds(s.when, env) ==> 0real <= d <= length
            &&& offset.finite() && justify.finite() && 0real <= d <= length ==> holds(s.when, env)
            &&& value(s.angle, env) == (if flipped {
                (env.atan2)(0real - ty, 0real - tx)
            } else {
                (env.atan2)(ty, tx)
            }) - angle.value()
            &&& value(s.at.x, env) == (env.var)(Quantity::SampleX)
            &&& value(s.at.y, env) == (env.var)(Quantity::SampleY)
            &&& value(s.shift.x, env) == 0real - (env.var)(Quantity::GlyphAdvance) / 2real
            &&& value(s.shift.y, env) == (env.var)(Quantity::GlyphDy) + (if flipped {
                anchor.value() * (up + down) - down
            } else {
                up - anchor.value() * (up + down)
            })
        }),
{
    distances_read(offset, justify, flipped, env);
    baselines_read(anchor, flipped, env);
    let d = glyph_distance(offset, justify, flipped);
    let l = Expr::Var(Quantity::PathLength);
    assert(value(l, env) == (env.var)(Quantity::PathLength));
    assert(value(e_sub(l, d), env) == value(l, env) - value(d, env));
    assert(value(e_int(0), env) == 0real) by {
        assert(0real / 1real == 0real);
    }
    assert(holds(c_ge(d, e_int(0)), env) == (value(d, env) >= 0real));
    assert(holds(c_ge(l, d), env) == (value(l, env) >= value(d, env)));
    let between = c_and(c_ge(d, e_int(0)), c_ge(l, d));
    assert(holds(between, env) == (holds(c_ge(d, e_int(0)), env) && holds(c_ge(l, d), env)));
    assert(holds(c_finite(d), env) == well_defined(d, env));
    let vx = Expr::Var(Quantity::TangentX);
    let vy = Expr::Var(Quantity::TangentY);
    assert(value(vx, env) == (env.var)(Quantity::TangentX));
    assert(value(vy, env) == (env.var)(Quantity::TangentY));
    assert(value(e_neg(vx), env) == 0real - value(vx, env));
    assert(value(e_neg(vy), env) == 0real - value(vy, env));
    let t = e_atan2(
        e_tangent(Quantity::TangentY, flipped),
        e_tangent(Quantity::TangentX, flipped),
    );
    assert(value(t, env) == (env.atan2)(
        value(e_tangent(Quantity::TangentY, flipped), env),
        value(e_tangent(Quantity::TangentX, flipped), env),
    ));
    let a = Expr::Lit(angle);
    assert(value(a, env) == angle.value());
    assert(value(e_neg(a), env) == 0real - value(a, env));
    assert(value(Expr::Var(Quantity::SampleX), env) == (env.var)(Quantity::SampleX));
    assert(value(Expr::Var(Quantity::SampleY), env) == (env.var)(Quantity::SampleY));
    assert(value(e_neg(e_half_advance()), env) == 0real - value(e_half_advance(), env));
    assert(value(Expr::Var(Quantity::GlyphDy), env) == (env.var)(Quantity::GlyphDy));
}

proof fn shifts_read(justify: Num, flipped: bool, env: Env)
    ensures
        ({
            let slack = (env.var)(Quantity::PathLength) - (env.var)(Quantity::TextWidth);
            value(shift_of(justify, flipped), env) == (if flipped {
                1real - justify.value()
            } else {
                justify.value()
            }) * slack
        }),
        justify.finite() ==> well_defined(shift_of(justify, flipped), env),
{
    reveal_with_fuel(well_defined, 4);
    let j = Expr::Lit(justify);
    assert(value(j, env) == justify.value());
    assert(value(e_int(1), env) == 1real) by {
        assert(1real / 1real == 1real);
    }
    let l = Expr::Var(Quantity::PathLength);
    let w = Expr::Var(Quantity::TextWidth);
    assert(value(l, env) == (env.var)(Quantity::PathLength));
    assert(value(w, env) == (env.var)(Quantity::TextWidth));
    assert(value(e_slack(), env) == value(l, env) - value(w, env));
    assert(value(e_sub(e_int(1), j), env) == 1real - value(j, env));
}

proof fn distances_read(offset: Num, justify: Num, flipped: bool, env: Env)
    ensures
        value(glyph_distance(offset, justify, flipped), env) == reading_place(
            offset.value(),
            justify.value(),
            flipped,
            env,
        ),
        offset.finite() && justify.finite() ==> well_defined(
            glyph_distance(offset, justify, flipped),
            env,
        ),
        value(e_half_advance(), env) == (env.var)(Quantity::GlyphAdvance) / 2real,
{
    shifts_read(justify, flipped, env);
    let o = Expr::Lit(offset);
    points_in_pixels(o, env);
    assert(value(o, env) == offset.value());
    let s = e_add(e_px(o), shift_of(justify, flipped));
    assert(value(s, env) == value(e_px(o), env) + value(shift_of(justify, flipped), env));
    let g = Expr::Var(Quantity::GlyphX);
    assert(value(g, env) == (env.var)(Quantity::GlyphX));
    assert(value(e_add(s, g), env) == value(s, env) + value(g, env));
    let a = Expr::Var(Quantity::GlyphAdvance);
    assert(value(a, env) == (env.var)(Quantity::GlyphAdvance));
    assert(value(e_half(), env) == 1real / 2real);
    assert(value(e_mul(a, e_half()), env) == value(a, env) * (1real / 2real));
    if offset.finite() && justify.finite() {
        assert(value(e_int(72), env) == 72real) by {
            assert(72real / 1real == 72real);
        }
        assert(well_defined(e_px(o), env)) by {
            reveal_with_fuel(well_defined, 4);
        }
        assert(well_defined(e_half_advance(), env)) by {
            reveal_with_fuel(well_defined, 3);
        }
        assert(well_defined(s, env));
        assert(well_defined(g, env));
        assert(well_defined(e_add(s, g), env));
    }
}

proof fn baselines_read(anchor: Num, flipped: bool, env: Env)
    ensures
        ({
            let up = (env.var)(Quantity::TextAscent);
            let down = (env.var)(Quantity::TextDescent);
            value(baseline_of(anchor, flipped), env) == (if flipped {
                anchor.value() * (up + down) - down
            } else {
                up - anchor.value() * (up + down)
            })
        }),
{
    let up = Expr::Var(Quantity::TextAscent);
    let down = Expr::Var(Quantity::TextDescent);
    let a = Expr::Lit(anchor);
    assert(value(up, env) == (env.var)(Quantity::TextAscent));
    assert(value(down, env) == (env.var)(Quantity::TextDescent));
    assert(value(a, env) == anchor.value());
    assert(value(e_body(), env) == value(up, env) + value(down, env));
    assert(value(e_mul(a, e_body()), env) == value(a, env) * value(e_body(), env));
}

/// A rule runs along the curve from where reading gets to its start to where it
/// gets to its end, as far as the curve goes, and lies as far beside the curve as
/// the baseline and the rule's own height above it say.
pub proof fn rules_run_where_reading_gets_to_them(
    offset: Num,
    justify: Num,
    anchor: Num,
    flipped: bool,
    env: Env,
)
    ensures
        ({
            let r = rule_of(offset, justify, anchor, flipped);
            let length = (env.var)(Quantity::PathLength);
            let slack = length - (env.var)(Quantity::TextWidth);
            let start = px(offset.value(), env) + (if flipped {
                1real - justify.value()
            } else {
                justify.value()
            }) * slack;
            let lo = real_clamp(start + (env.var)(Quantity::RuleX0), 0real, length);
            let hi = real_clamp(start + (env.var)(Quantity::RuleX1), 0real, length);
            let up = (env.var)(Quantity::TextAscent);
            let down = (env.var)(Quantity::TextDescent);
            let tx = (env.var)(Quantity::TangentX);
            let ty = (env.var)(Quantity::TangentY);
            let beside = if flipped {
                0real - (anchor.value() * (up + down) - down + (env.var)(Quantity::RuleDy))
            } else {
                up - anchor.value() * (up + down) + (env.var)(Quantity::RuleDy)
            };
            &&& value(r.from, env) == (if flipped {
                length - hi
            } else {
                lo
            })
            &&& value(r.to, env) == (if flipped {
                length - lo
            } else {
                hi
            })
            &&& value(r.thickness, env) == (env.var)(Quantity::RuleThickness)
            &&& value(r.at.x, env) == (env.var)(Quantity::SampleX) + (0real - ty) * beside
            &&& value(r.at.y, env) == (env.var)(Quantity::SampleY) + tx * beside
            &&& holds(r.when, env) ==> lo < hi && (env.var)(Quantity::RuleThickness) > 0real
            &&& offset.finite() && justify.finite() && lo < hi && (env.var)(
                Quantity::RuleThickness,
            ) > 0real ==> holds(r.when, env)
        }),
{
    shifts_read(justify, flipped, env);
    baselines_read(anchor, flipped, env);
    let o = Expr::Lit(offset);
    points_in_pixels(o, env);
    assert(value(o, env) == offset.value());
    let s = e_add(e_px(o), shift_of(justify, flipped));
    assert(value(s, env) == value(e_px(o), env) + value(shift_of(justify, flipped), env));
    let v0 = Expr::Var(Quantity::RuleX0);
    let v1 = Expr::Var(Quantity::RuleX1);
    assert(value(v0, env) == (env.var)(Quantity::RuleX0));
    assert(value(v1, env) == (env.var)(Quantity::RuleX1));
    let d0 = rule_distance(offset, justify, flipped, Quantity::RuleX0);
    let d1 = rule_distance(offset, justify, flipped, Quantity::RuleX1);
    assert(value(d0, env) == value(s, env) + value(v0, env));
    assert(value(d1, env) == value(s, env) + value(v1, env));
    let l = Expr::Var(Quantity::PathLength);
    assert(value(l, env) == (env.var)(Quantity::PathLength));
    assert(value(e_int(0), env) == 0real) by {
        assert(0real / 1real == 0real);
    }
    let lo = rule_end(offset, justify, flipped, Quantity::RuleX0);
    let hi = rule_end(offset, justify, flipped, Quantity::RuleX1);
    assert(value(lo, env) == real_clamp(value(d0, env), 0real, value(l, env)));
    assert(value(hi, env) == real_clamp(value(d1, env), 0real, value(l, env)));
    assert(value(e_sub(l, lo), env) == value(l, env) - value(lo, env));
    assert(value(e_sub(l, hi), env) == value(l, env) - value(hi, env));
    let dy = Expr::Var(Quantity::RuleDy);
    assert(value(dy, env) == (env.var)(Quantity::RuleDy));
    let perp = e_add(baseline_of(anchor, flipped), dy);
    assert(value(perp, env) == value(baseline_of(anchor, flipped), env) + value(dy, env));
    assert(value(e_neg(perp), env) == 0real - value(perp, env));
    let b = rule_beside(anchor, flipped);
    let vx = Expr::Var(Quantity::TangentX);
    let vy = Expr::Var(Quantity::TangentY);
    assert(value(vx, env) == (env.var)(Quantity::TangentX));
    assert(value(vy, env) == (env.var)(Quantity::TangentY));
    assert(value(e_neg(vy), env) == 0real - value(vy, env));
    assert(value(e_mul(e_neg(vy), b), env) == value(e_neg(vy), env) * value(b, env));
    assert(value(e_mul(vx, b), env) == value(vx, env) * value(b, env));
    assert(value(Expr::Var(Quantity::SampleX), env) == (env.var)(Quantity::SampleX));
    assert(value(Expr::Var(Quantity::SampleY), env) == (env.var)(Quantity::SampleY));
    let t = Expr::Var(Quantity::RuleThickness);
    assert(value(t, env) == (env.var)(Quantity::RuleThickness));
    assert(holds(c_positive(t), env) == (value(t, env) > 0real));
    assert(well_defined(t, env));
    assert(holds(c_finite(t), env));
    assert(holds(c_finite_positive(t), env) == (holds(c_finite(t), env) && holds(
        c_positive(t),
        env,
    )));
    assert(holds(c_gt(hi, lo), env) == (value(hi, env) > value(lo, env)));
    let ends = c_and(c_finite(d0), c_finite(d1));
    assert(holds(ends, env) == (holds(c_finite(d0), env) && holds(c_finite(d1), env)));
    let run = c_and(ends, c_gt(hi, lo));
    assert(holds(run, env) == (holds(ends, env) && holds(c_gt(hi, lo), env)));
    if offset.finite() && justify.finite() {
        assert(value(e_int(72), env) == 72real) by {
            assert(72real / 1real == 72real);
        }
        assert(well_defined(e_px(o), env)) by {
            reveal_with_fuel(well_defined, 4);
        }
        assert(well_defined(s, env));
        assert(well_defined(v0, env) && well_defined(v1, env));
        assert(well_defined(d0, env) && well_defined(d1, env));
    }
}

/// How many glyphs of those before `n` pass a test.
pub open spec fn how_many(test: spec_fn(int) -> bool, n: nat) -> nat
    decreases n,
{
    if n == 0 {
        0
    } else {
        how_many(test, (n - 1) as nat) + if test(n - 1) {
            1nat
        } else {
            0nat
        }
    }
}

/// A label stands on its head where more of its glyphs run leftward than not, of
/// those that are on the curve at all.
pub proof fn labels_stand_on_their_heads_by_majority(leftward: Seq<Option<bool>>)
    ensures
        ({
            let n = leftward.len();
            let left = how_many(|k: int| leftward[k] == Some(true), n);
            let right = how_many(|k: int| leftward[k] == Some(false), n);
            mostly_upended(leftward) <==> left > right
        }),
{
    counts_add_up(leftward, leftward.len());
}

proof fn counts_add_up(leftward: Seq<Option<bool>>, n: nat)
    requires
        n <= leftward.len(),
    ensures
        upended(leftward, n) == how_many(|k: int| leftward[k] == Some(true), n),
        found(leftward, n) == how_many(|k: int| leftward[k] == Some(true), n) + how_many(
            |k: int| leftward[k] == Some(false),
            n,
        ),
    decreases n,
{
    if n > 0 {
        counts_add_up(leftward, (n - 1) as nat);
        let left = |k: int| leftward[k] == Some(true);
        let right = |k: int| leftward[k] == Some(false);
        assert(how_many(left, n) == how_many(left, (n - 1) as nat) + if left(n - 1) {
            1nat
        } else {
            0nat
        });
        assert(how_many(right, n) == how_many(right, (n - 1) as nat) + if right(n - 1) {
            1nat
        } else {
            0nat
        });
        match leftward[n - 1] {
            Some(b) => assert(b || !b),
            None => {},
        }
    }
}

/// A curve passes through the vertices that lie somewhere, each once and in order.
/// Where lines bend it passes, between each two that follow each other, through the
/// points between them, and where they do not through nothing else.
pub proof fn curves_pass_through_what_lies_somewhere(linear: bool, placed: Seq<bool>, n: nat)
    requires
        n <= placed.len() <= usize::MAX,
    ensures
        ({
            let s = parts_of(linear, placed, n);
            &&& forall|i: int|
                0 <= i < n ==> (#[trigger] placed[i] <==> s.contains(
                    CurvePart::Vertex(i as usize),
                ))
            &&& forall|k: int|
                0 <= k < s.len() && (#[trigger] s[k]) is Vertex ==> s[k]->Vertex_0 < n
                    && placed[s[k]->Vertex_0 as int]
            &&& linear ==> forall|k: int| 0 <= k < s.len() ==> (#[trigger] s[k]) is Vertex
            &&& forall|k: int|
                #![trigger s[k]]
                0 <= k < s.len() && s[k] is Between ==> {
                    &&& !linear
                    &&& 0 < k < s.len() - 1
                    &&& s[k - 1] == CurvePart::Vertex(s[k]->Between_0)
                    &&& s[k + 1] == CurvePart::Vertex(s[k]->Between_1)
                    &&& s[k]->Between_0 < s[k]->Between_1
                }
            &&& match last_placed(placed, n) {
                Some(l) => {
                    &&& l < n && placed[l as int]
                    &&& s.len() > 0 && s[s.len() - 1] == CurvePart::Vertex(l)
                    &&& forall|i: int| l < i < n ==> !#[trigger] placed[i]
                },
                None => s.len() == 0 && forall|i: int| 0 <= i < n ==> !#[trigger] placed[i],
            }
        }),
    decreases n,
{
    if n > 0 {
        curves_pass_through_what_lies_somewhere(linear, placed, (n - 1) as nat);
        let s = parts_of(linear, placed, n);
        let t = parts_of(linear, placed, (n - 1) as nat);
        assert forall|i: int| 0 <= i < n implies (#[trigger] placed[i] <==> s.contains(
            CurvePart::Vertex(i as usize),
        )) by {
            let v = CurvePart::Vertex(i as usize);
            if i == n - 1 {
                if placed[i] {
                    assert(s[s.len() - 1] == v);
                } else if s.contains(v) {
                    let k = choose|k: int| 0 <= k < s.len() && s[k] == v;
                    assert(t[k] == v);
                }
            } else {
                if t.contains(v) {
                    let k = choose|k: int| 0 <= k < t.len() && t[k] == v;
                    assert(s[k] == v);
                }
                if s.contains(v) {
                    let k = choose|k: int| 0 <= k < s.len() && s[k] == v;
                    assert(k < t.len());
                    assert(t[k] == v);
                }
            }
        }
        assert forall|k: int| #![trigger s[k]] 0 <= k < s.len() && s[k] is Between implies {
            &&& !linear
            &&& 0 < k < s.len() - 1
            &&& s[k - 1] == CurvePart::Vertex(s[k]->Between_0)
            &&& s[k + 1] == CurvePart::Vertex(s[k]->Between_1)
            &&& s[k]->Between_0 < s[k]->Between_1
        } by {
            if k < t.len() {
                assert(s[k] == t[k]);
                assert(t[k] is Between);
                assert(s[k - 1] == t[k - 1] && s[k + 1] == t[k + 1]);
            } else {
                assert(t.len() > 0);
                assert(s[k - 1] == t[t.len() - 1]);
            }
        }
        assert forall|k: int| 0 <= k < s.len() && (#[trigger] s[k]) is Vertex implies s[k]->Vertex_0
            < n && placed[s[k]->Vertex_0 as int] by {
            if k < t.len() {
                assert(s[k] == t[k]);
            }
        }
        if linear {
            assert forall|k: int| 0 <= k < s.len() implies (#[trigger] s[k]) is Vertex by {
                if k < t.len() {
                    assert(s[k] == t[k]);
                }
            }
        }
    }
}

/// A label with glyphs is drawn rule by rule and then glyph by glyph, each glyph
/// after its own outline where there is one; without glyphs it is not drawn.
pub proof fn rules_come_first_and_outlines_before_their_glyphs(
    outlined: bool,
    rules: nat,
    glyphs: nat,
    k: int,
)
    requires
        rules <= usize::MAX,
        glyphs <= usize::MAX,
    ensures
        ({
            let s = ops_of(outlined, rules, glyphs);
            &&& glyphs == 0 ==> s.len() == 0
            &&& glyphs > 0 ==> {
                &&& s.len() == rules + glyphs * (if outlined {
                    2nat
                } else {
                    1nat
                })
                &&& 0 <= k < rules ==> s[k] == PathOp::Rule(k as usize)
                &&& 0 <= k < glyphs && outlined ==> s[rules + 2 * k] == PathOp::Outline(k as usize)
                    && s[rules + 2 * k + 1] == PathOp::Glyph(k as usize)
                &&& 0 <= k < glyphs && !outlined ==> s[rules + k] == PathOp::Glyph(k as usize)
            }
        }),
{
    glyphs_in_turn(outlined, glyphs, k);
    let r = rule_ops(rules);
    let g = glyph_ops(outlined, glyphs);
    let s = ops_of(outlined, rules, glyphs);
    if glyphs > 0 {
        assert(s =~= r + g);
        if 0 <= k < glyphs && outlined {
            assert(s[rules + 2 * k] == g[2 * k]);
            assert(s[rules + 2 * k + 1] == g[2 * k + 1]);
        }
        if 0 <= k < glyphs && !outlined {
            assert(s[rules + k] == g[k]);
        }
    }
}

proof fn glyphs_in_turn(outlined: bool, n: nat, k: int)
    requires
        n <= usize::MAX,
    ensures
        glyph_ops(outlined, n).len() == n * (if outlined {
            2nat
        } else {
            1nat
        }),
        0 <= k < n && outlined ==> glyph_ops(outlined, n)[2 * k] == PathOp::Outline(k as usize)
            && glyph_ops(outlined, n)[2 * k + 1] == PathOp::Glyph(k as usize),
        0 <= k < n && !outlined ==> glyph_ops(outlined, n)[k] == PathOp::Glyph(k as usize),
    decreases n,
{
    if n > 0 {
        glyphs_in_turn(outlined, (n - 1) as nat, k);
    }
}

} // verus!
