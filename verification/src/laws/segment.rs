//! Segments, and the markers at the ends of lines.

use vstd::prelude::*;

use crate::expr::{
    e_half, e_int, e_mul, holds, points_in_pixels, real_max, value, Env, Expr, Quantity,
};
use crate::geom::marker::{end_marker, marker_size, trimmed, EndMarker};
use crate::geom::segment::{
    is_segment_plan, is_segment_row, is_stroked, marker_free, ops_of, stroked_rows, SegmentOp,
    SegmentRow,
};
use crate::laws::data::{
    agree_on_row, cartesian_points_are_fractions_of_the_panel, is_put, offsets_move_right_and_up,
    px, put, rows_lie_at_their_own_place, says, values_are_taken_for_what_they_are, zero_is_nought,
};
use crate::num::Num;
use crate::projection::Projection;
use crate::resolve::{cap_named, join_named, pick_for, Source};
use crate::scene::{Paint, Xform};
use crate::theme::SegmentTheme;
use crate::value::Value;

verus! {

/// Every row with a stroke is drawn, once and in order, and no other.
pub proof fn stroked_rows_are_drawn_once(src: Source, theme: SegmentTheme, n: nat, i: int)
    ensures
        stroked_rows(src, theme, n).contains(i) <==> 0 <= i < n && (src.color_at(
            "stroke"@,
            i,
        ) is Some || theme.stroke is Some),
        forall|k: int|
            0 <= k < stroked_rows(src, theme, n).len() ==> 0 <= (#[trigger] stroked_rows(
                src,
                theme,
                n,
            )[k]) < n,
        forall|j: int, k: int|
            0 <= j < k < stroked_rows(src, theme, n).len() ==> (#[trigger] stroked_rows(
                src,
                theme,
                n,
            )[j]) < (#[trigger] stroked_rows(src, theme, n)[k]),
    decreases n,
{
    let s = stroked_rows(src, theme, n);
    if n > 0 {
        let t = stroked_rows(src, theme, (n - 1) as nat);
        stroked_rows_are_drawn_once(src, theme, (n - 1) as nat, i);
        if is_stroked(src, theme, n - 1) {
            assert(s[t.len() as int] == n - 1);
            if t.contains(i) {
                let k = choose|k: int| 0 <= k < t.len() && t[k] == i;
                assert(s[k] == i);
            }
            if s.contains(i) && i != n - 1 {
                let k = choose|k: int| 0 <= k < s.len() && s[k] == i;
                assert(t[k] == i);
            }
        }
    }
}

/// A segment runs from the row's own start to its own end. Its ends lie where the
/// data put the row, and beside that by its offsets; it is drawn where they are
/// numbers and its line has a width.
pub proof fn segments_join_the_rows_own_points(
    src: Source,
    theme: SegmentTheme,
    projection: Projection,
    n: nat,
    rows: Seq<SegmentRow>,
    k: int,
    env: Env,
)
    requires
        is_segment_plan(src, theme, projection, n, rows),
        0 <= k < rows.len(),
        n <= usize::MAX,
    ensures
        ({
            let r = rows[k];
            let i = r.row as int;
            &&& 0 <= i < n
            &&& is_put(src, "x"@, i) && is_put(src, "y"@, i) ==> {
                &&& value(r.from_frac.a, env) == put(src, "x"@, i, says(src, "x_band"@, i, 0real))
                &&& value(r.from_frac.b, env) == put(src, "y"@, i, says(src, "y_band"@, i, 0real))
            }
            &&& is_put(src, "x2"@, i) && is_put(src, "y2"@, i) ==> {
                &&& value(r.to_frac.a, env) == put(src, "x2"@, i, says(src, "x2_band"@, i, 0real))
                &&& value(r.to_frac.b, env) == put(src, "y2"@, i, says(src, "y2_band"@, i, 0real))
            }
            &&& value(r.from.x, env) == value(
                projection.point_at(r.from_frac.a, r.from_frac.b).x,
                env,
            ) + px(says(src, "x_offset"@, i, 0real), env)
            &&& value(r.from.y, env) == value(
                projection.point_at(r.from_frac.a, r.from_frac.b).y,
                env,
            ) - px(says(src, "y_offset"@, i, 0real), env)
            &&& value(r.to.x, env) == value(projection.point_at(r.to_frac.a, r.to_frac.b).x, env)
                + px(says(src, "x2_offset"@, i, 0real), env)
            &&& value(r.to.y, env) == value(projection.point_at(r.to_frac.a, r.to_frac.b).y, env)
                - px(says(src, "y2_offset"@, i, 0real), env)
        }),
{
    let r = rows[k];
    let i = stroked_rows(src, theme, n)[k];
    stroked_rows_are_drawn_once(src, theme, n, i);
    assert(stroked_rows(src, theme, n).contains(i));
    assert(is_segment_row(src, theme, projection, i, r));
    if is_put(src, "x"@, i) && is_put(src, "y"@, i) {
        rows_lie_at_their_own_place(src, "x"@, "y"@, "x_band"@, "y_band"@, i, env);
    }
    if is_put(src, "x2"@, i) && is_put(src, "y2"@, i) {
        rows_lie_at_their_own_place(src, "x2"@, "y2"@, "x2_band"@, "y2_band"@, i, env);
    }
    let p = projection.point_at(r.from_frac.a, r.from_frac.b);
    let q = projection.point_at(r.to_frac.a, r.to_frac.b);
    offsets_move_right_and_up(src, p, "x_offset"@, "y_offset"@, i, env);
    offsets_move_right_and_up(src, q, "x2_offset"@, "y2_offset"@, i, env);
}

/// On a Cartesian panel a segment runs, in pixels, from the place of its own `x`
/// and `y` to that of its own `x2` and `y2`.
pub proof fn segments_run_across_the_panel(
    src: Source,
    theme: SegmentTheme,
    n: nat,
    rows: Seq<SegmentRow>,
    k: int,
    env: Env,
)
    requires
        is_segment_plan(src, theme, Projection::Cartesian, n, rows),
        0 <= k < rows.len(),
        n <= usize::MAX,
    ensures
        ({
            let r = rows[k];
            let i = r.row as int;
            let x0 = (env.var)(Quantity::PanelX0);
            let y1 = (env.var)(Quantity::PanelY1);
            let w = (env.var)(Quantity::PanelX1) - x0;
            let h = y1 - (env.var)(Quantity::PanelY0);
            &&& is_put(src, "x"@, i) && is_put(src, "y"@, i) ==> {
                &&& value(r.from.x, env) == x0 + put(src, "x"@, i, says(src, "x_band"@, i, 0real))
                    * w + px(says(src, "x_offset"@, i, 0real), env)
                &&& value(r.from.y, env) == y1 - put(src, "y"@, i, says(src, "y_band"@, i, 0real))
                    * h - px(says(src, "y_offset"@, i, 0real), env)
            }
            &&& is_put(src, "x2"@, i) && is_put(src, "y2"@, i) ==> {
                &&& value(r.to.x, env) == x0 + put(src, "x2"@, i, says(src, "x2_band"@, i, 0real))
                    * w + px(says(src, "x2_offset"@, i, 0real), env)
                &&& value(r.to.y, env) == y1 - put(src, "y2"@, i, says(src, "y2_band"@, i, 0real))
                    * h - px(says(src, "y2_offset"@, i, 0real), env)
            }
        }),
{
    segments_join_the_rows_own_points(src, theme, Projection::Cartesian, n, rows, k, env);
    let r = rows[k];
    cartesian_points_are_fractions_of_the_panel(r.from_frac.a, r.from_frac.b, env);
    cartesian_points_are_fractions_of_the_panel(r.to_frac.a, r.to_frac.b, env);
}

/// A segment is drawn exactly where the panel has room, both of its ends are
/// finite and its line has a width.
pub proof fn segments_are_drawn_where_they_can_be(
    src: Source,
    theme: SegmentTheme,
    projection: Projection,
    n: nat,
    rows: Seq<SegmentRow>,
    k: int,
    env: Env,
)
    requires
        is_segment_plan(src, theme, projection, n, rows),
        0 <= k < rows.len(),
        n <= usize::MAX,
    ensures
        ({
            let r = rows[k];
            let i = r.row as int;
            let w = (env.var)(Quantity::PanelX1) - (env.var)(Quantity::PanelX0);
            let h = (env.var)(Quantity::PanelY1) - (env.var)(Quantity::PanelY0);
            let lw = px(says(src, "linewidth"@, i, theme.linewidth_pt.value()), env);
            &&& value(r.pen.width, env) == lw
            &&& holds(r.when, env) <==> {
                &&& w > 0real && h > 0real && lw > 0real
                &&& crate::expr::well_defined(r.from_frac.a, env)
                &&& crate::expr::well_defined(r.from_frac.b, env)
                &&& crate::expr::well_defined(r.to_frac.a, env)
                &&& crate::expr::well_defined(r.to_frac.b, env)
                &&& crate::expr::well_defined(r.pen.width, env)
            }
        }),
{
    let r = rows[k];
    let i = stroked_rows(src, theme, n)[k];
    stroked_rows_are_drawn_once(src, theme, n, i);
    assert(is_segment_row(src, theme, projection, i, r));
    let lw = src.number_or("linewidth"@, i, theme.linewidth_pt);
    values_are_taken_for_what_they_are(src, "linewidth"@, i, theme.linewidth_pt);
    points_in_pixels(Expr::Lit(lw), env);
    assert(value(Expr::Lit(lw), env) == lw.value());
    panels_with_room(env);
    assert(value(e_int(0), env) == 0real) by {
        assert(0real / 1real == 0real);
    }
    reveal_with_fuel(holds, 6);
}

/// A panel is open exactly where it is wider and taller than nothing.
pub proof fn panels_with_room(env: Env)
    ensures
        holds(crate::expr::c_panel_open(), env) <==> (env.var)(Quantity::PanelX1) > (env.var)(
            Quantity::PanelX0,
        ) && (env.var)(Quantity::PanelY1) > (env.var)(Quantity::PanelY0),
{
    let w = crate::expr::e_panel_w();
    let h = crate::expr::e_panel_h();
    let zero = e_int(0);
    assert(value(zero, env) == 0real) by {
        assert(0real / 1real == 0real);
    }
    assert(value(Expr::Var(Quantity::PanelX0), env) == (env.var)(Quantity::PanelX0));
    assert(value(Expr::Var(Quantity::PanelX1), env) == (env.var)(Quantity::PanelX1));
    assert(value(Expr::Var(Quantity::PanelY0), env) == (env.var)(Quantity::PanelY0));
    assert(value(Expr::Var(Quantity::PanelY1), env) == (env.var)(Quantity::PanelY1));
    assert(value(w, env) == (env.var)(Quantity::PanelX1) - (env.var)(Quantity::PanelX0));
    assert(value(h, env) == (env.var)(Quantity::PanelY1) - (env.var)(Quantity::PanelY0));
    let flat = crate::expr::c_ge(zero, w);
    let low = crate::expr::c_ge(zero, h);
    assert(holds(flat, env) == (0real >= value(w, env)));
    assert(holds(low, env) == (0real >= value(h, env)));
    assert(holds(crate::expr::c_not(flat), env) == !holds(flat, env));
    assert(holds(crate::expr::c_not(low), env) == !holds(low, env));
}

/// A segment is turned about its middle by the row's own angle, against the clock,
/// and not at all without one. It takes the row's own colour, pen and id.
pub proof fn segments_look_as_their_row_says(
    src: Source,
    theme: SegmentTheme,
    projection: Projection,
    n: nat,
    rows: Seq<SegmentRow>,
    k: int,
    env: Env,
)
    requires
        is_segment_plan(src, theme, projection, n, rows),
        0 <= k < rows.len(),
        n <= usize::MAX,
    ensures
        ({
            let r = rows[k];
            let i = r.row as int;
            &&& match src.number_at("angle"@, i) {
                Some(a) => if a.is_nought() {
                    r.xform is Identity
                } else {
                    &&& r.xform matches Xform::RotateAbout { angle, at }
                    &&& value(angle, env) == 0real - a.value()
                    &&& value(at.x, env) == (value(r.from.x, env) + value(r.to.x, env)) / 2real
                    &&& value(at.y, env) == (value(r.from.y, env) + value(r.to.y, env)) / 2real
                },
                None => r.xform is Identity,
            }
            &&& match src.color_at("stroke"@, i) {
                Some(c) => r.stroke.color == c,
                None => theme.stroke == Some(r.stroke.color),
            }
            &&& r.stroke.opacity == src.number_at("stroke_opacity"@, i)
            &&& r.pen.cap == cap_named(src.string_at("cap"@, i), theme.cap)
            &&& r.pen.join == join_named(src.string_at("join"@, i), theme.join)
            &&& match src.value_at("linetype"@, i) {
                Some(Value::Linetype(l)) => r.pen.pattern == Some(l),
                _ => r.pen.pattern is None,
            }
            &&& value(r.pen.dash_offset, env) == px(says(src, "dash_offset"@, i, 0real), env)
            &&& match src.color_at("fill"@, i) {
                Some(c) => r.marker_fill == (Paint { color: c, opacity: None }),
                None => r.marker_fill == r.stroke,
            }
            &&& r.pick == pick_for(src.number_at("pick_id"@, i))
        }),
{
    let r = rows[k];
    let i = stroked_rows(src, theme, n)[k];
    stroked_rows_are_drawn_once(src, theme, n, i);
    assert(is_segment_row(src, theme, projection, i, r));
    let zero = Num { bits: 0 };
    zero_is_nought();
    values_are_taken_for_what_they_are(src, "dash_offset"@, i, zero);
    let d = Expr::Lit(src.number_or("dash_offset"@, i, zero));
    points_in_pixels(d, env);
    assert(value(d, env) == src.number_or("dash_offset"@, i, zero).value());
    let sx = crate::expr::e_add(r.from.x, r.to.x);
    let sy = crate::expr::e_add(r.from.y, r.to.y);
    assert(value(e_half(), env) == 1real / 2real);
    assert(value(e_mul(e_half(), sx), env) == (1real / 2real) * value(sx, env));
    assert(value(e_mul(e_half(), sy), env) == (1real / 2real) * value(sy, env));
    let a = Expr::Lit(src.number_or("angle"@, i, zero));
    assert(value(a, env) == src.number_or("angle"@, i, zero).value());
    assert(value(crate::expr::e_neg(a), env) == 0real - value(a, env));
}

/// Whether `m` is the marker that these channels ask for in row `i`: of that name
/// and size, pointing the other way where it is told to, filled with its own
/// colour or else the row's, outlined as wide as the line but half a point at
/// least.
pub open spec fn is_marker_of(
    m: Option<EndMarker>,
    src: Source,
    name: Seq<char>,
    size: Seq<char>,
    fill: Seq<char>,
    invert: Seq<char>,
    i: int,
    linewidth: real,
    row_fill: Paint,
    env: Env,
) -> bool {
    match src.value_at(name, i) {
        Some(Value::String(s)) => if s@.len() == 0 {
            m is None
        } else {
            &&& m matches Some(e)
            &&& e.name == s
            &&& value(e.size, env) == px(says(src, size, i, 3real * linewidth), env)
            &&& match src.value_at(invert, i) {
                Some(Value::Bool(b)) => e.invert == b,
                _ => !e.invert,
            }
            &&& match src.value_at(fill, i) {
                Some(Value::Color(color)) => e.fill == (Paint { color, opacity: None }),
                _ => e.fill == row_fill,
            }
            &&& value(e.outline, env) == real_max(px(linewidth, env), px(1real / 2real, env))
        },
        _ => m is None,
    }
}

/// The marker at an end of a line is the one that the row asks for.
pub proof fn end_markers_are_those_asked_for(
    src: Source,
    name: Seq<char>,
    size: Seq<char>,
    fill: Seq<char>,
    invert: Seq<char>,
    i: int,
    linewidth: Num,
    row_fill: Paint,
    env: Env,
)
    ensures
        is_marker_of(
            end_marker(src, name, size, fill, invert, i, linewidth, row_fill),
            src,
            name,
            size,
            fill,
            invert,
            i,
            linewidth.value(),
            row_fill,
            env,
        ),
{
    let l = Expr::Lit(linewidth);
    let s = marker_size(src, size, i, linewidth);
    sizes_of_markers(src, size, i, linewidth, env);
    points_in_pixels(s, env);
    points_in_pixels(l, env);
    points_in_pixels(e_half(), env);
    assert(value(l, env) == linewidth.value());
    assert(value(e_half(), env) == 1real / 2real);
}

proof fn sizes_of_markers(src: Source, size: Seq<char>, i: int, linewidth: Num, env: Env)
    ensures
        value(marker_size(src, size, i, linewidth), env) == says(
            src,
            size,
            i,
            3real * linewidth.value(),
        ),
{
    let l = Expr::Lit(linewidth);
    assert(value(l, env) == linewidth.value());
    assert(value(e_int(3), env) == 3real) by {
        assert(3real / 1real == 3real);
    }
    assert(value(e_mul(e_int(3), l), env) == 3real * linewidth.value());
    if let Some(n) = src.number_at(size, i) {
        assert(value(Expr::Lit(n), env) == n.value());
    }
}

/// Off an end of a line is trimmed what the row asks for, and as much more as the
/// marker there reaches: so many times its size.
pub proof fn lines_give_way_to_their_markers(
    src: Source,
    clip: Seq<char>,
    name: Seq<char>,
    size: Seq<char>,
    reach: Quantity,
    i: int,
    linewidth: Num,
    env: Env,
)
    ensures
        value(trimmed(src, clip, name, size, reach, i, linewidth), env) == says(
            src,
            clip,
            i,
            0real,
        ) + (match src.value_at(name, i) {
            Some(Value::String(s)) => if s@.len() == 0 {
                0real
            } else {
                (env.var)(reach) * says(src, size, i, 3real * linewidth.value())
            },
            _ => 0real,
        }),
{
    let zero = Num { bits: 0 };
    zero_is_nought();
    values_are_taken_for_what_they_are(src, clip, i, zero);
    let asked = Expr::Lit(src.number_or(clip, i, zero));
    let s = marker_size(src, size, i, linewidth);
    sizes_of_markers(src, size, i, linewidth, env);
    assert(value(asked, env) == src.number_or(clip, i, zero).value());
    assert(value(Expr::Var(reach), env) == (env.var)(reach));
    assert(value(e_mul(Expr::Var(reach), s), env) == (env.var)(reach) * value(s, env));
}

/// The start of a segment is trimmed and marked by the channels of its start, and
/// its end by those of its end.
pub proof fn segments_are_marked_at_their_ends(
    src: Source,
    theme: SegmentTheme,
    projection: Projection,
    n: nat,
    rows: Seq<SegmentRow>,
    k: int,
    env: Env,
)
    requires
        is_segment_plan(src, theme, projection, n, rows),
        0 <= k < rows.len(),
        n <= usize::MAX,
    ensures
        ({
            let r = rows[k];
            let i = r.row as int;
            let lw = says(src, "linewidth"@, i, theme.linewidth_pt.value());
            &&& is_marker_of(
                r.start_marker,
                src,
                "start_marker"@,
                "start_marker_size"@,
                "start_marker_fill"@,
                "start_marker_invert"@,
                i,
                lw,
                r.marker_fill,
                env,
            )
            &&& is_marker_of(
                r.end_marker,
                src,
                "end_marker"@,
                "end_marker_size"@,
                "end_marker_fill"@,
                "end_marker_invert"@,
                i,
                lw,
                r.marker_fill,
                env,
            )
            &&& value(r.clip_start, env) == says(src, "clip_start_radius"@, i, 0real) + (
            match src.value_at("start_marker"@, i) {
                Some(Value::String(s)) => if s@.len() == 0 {
                    0real
                } else {
                    (env.var)(Quantity::StartReach) * says(
                        src,
                        "start_marker_size"@,
                        i,
                        3real * lw,
                    )
                },
                _ => 0real,
            })
            &&& value(r.clip_end, env) == says(src, "clip_end_radius"@, i, 0real) + (
            match src.value_at("end_marker"@, i) {
                Some(Value::String(s)) => if s@.len() == 0 {
                    0real
                } else {
                    (env.var)(Quantity::EndReach) * says(src, "end_marker_size"@, i, 3real * lw)
                },
                _ => 0real,
            })
        }),
{
    let r = rows[k];
    let i = stroked_rows(src, theme, n)[k];
    stroked_rows_are_drawn_once(src, theme, n, i);
    assert(is_segment_row(src, theme, projection, i, r));
    let lw = src.number_or("linewidth"@, i, theme.linewidth_pt);
    values_are_taken_for_what_they_are(src, "linewidth"@, i, theme.linewidth_pt);
    end_markers_are_those_asked_for(
        src,
        "start_marker"@,
        "start_marker_size"@,
        "start_marker_fill"@,
        "start_marker_invert"@,
        i,
        lw,
        r.marker_fill,
        env,
    );
    end_markers_are_those_asked_for(
        src,
        "end_marker"@,
        "end_marker_size"@,
        "end_marker_fill"@,
        "end_marker_invert"@,
        i,
        lw,
        r.marker_fill,
        env,
    );
    lines_give_way_to_their_markers(
        src,
        "clip_start_radius"@,
        "start_marker"@,
        "start_marker_size"@,
        Quantity::StartReach,
        i,
        lw,
        env,
    );
    lines_give_way_to_their_markers(
        src,
        "clip_end_radius"@,
        "end_marker"@,
        "end_marker_size"@,
        Quantity::EndReach,
        i,
        lw,
        env,
    );
}

proof fn same_in_row(a: Source, b: Source, name: Seq<char>, i: int)
    requires
        agree_on_row(a, b, i),
    ensures
        a.value_at(name, i) == b.value_at(name, i),
        a.number_at(name, i) == b.number_at(name, i),
        a.color_at(name, i) == b.color_at(name, i),
        a.string_at(name, i) == b.string_at(name, i),
        a.linetype_at(name, i) == b.linetype_at(name, i),
{
}

/// What one row holds has no say in how another is drawn: sources that agree on a
/// row draw it alike.
#[verifier::spinoff_prover]
#[verifier::rlimit(50)]
pub proof fn segments_keep_to_their_row(
    a: Source,
    b: Source,
    theme: SegmentTheme,
    projection: Projection,
    i: int,
    r: SegmentRow,
    s: SegmentRow,
)
    requires
        agree_on_row(a, b, i),
        is_segment_row(a, theme, projection, i, r),
        is_segment_row(b, theme, projection, i, s),
    ensures
        r == s,
{
    same_in_row(a, b, "x_band"@, i);
    same_in_row(a, b, "y_band"@, i);
    same_in_row(a, b, "x2_band"@, i);
    same_in_row(a, b, "y2_band"@, i);
    same_in_row(a, b, "x_offset"@, i);
    same_in_row(a, b, "y_offset"@, i);
    same_in_row(a, b, "x2_offset"@, i);
    same_in_row(a, b, "y2_offset"@, i);
    same_in_row(a, b, "linewidth"@, i);
    same_in_row(a, b, "stroke"@, i);
    same_in_row(a, b, "stroke_opacity"@, i);
    same_in_row(a, b, "fill"@, i);
    same_in_row(a, b, "clip_start_radius"@, i);
    same_in_row(a, b, "clip_end_radius"@, i);
    same_in_row(a, b, "start_marker"@, i);
    same_in_row(a, b, "end_marker"@, i);
    same_in_row(a, b, "start_marker_size"@, i);
    same_in_row(a, b, "end_marker_size"@, i);
    same_in_row(a, b, "start_marker_fill"@, i);
    same_in_row(a, b, "end_marker_fill"@, i);
    same_in_row(a, b, "start_marker_invert"@, i);
    same_in_row(a, b, "end_marker_invert"@, i);
    same_in_row(a, b, "angle"@, i);
    same_in_row(a, b, "cap"@, i);
    same_in_row(a, b, "join"@, i);
    same_in_row(a, b, "linetype"@, i);
    same_in_row(a, b, "dash_offset"@, i);
    same_in_row(a, b, "pick_id"@, i);
    assert(r.from_frac == s.from_frac);
    assert(r.to_frac == s.to_frac);
    assert(r.from == s.from && r.to == s.to);
    assert(r.stroke == s.stroke);
    assert(r.pen == s.pen);
    assert(r.clip_start == s.clip_start && r.clip_end == s.clip_end);
    assert(r.start_marker == s.start_marker && r.end_marker == s.end_marker);
}

/// A segment of which two points are left is drawn once, between its markers: in
/// one go, or step by step where its pattern holds a marker. Of one that was
/// trimmed away nothing is drawn.
pub proof fn segments_are_drawn_between_their_markers(r: SegmentRow, points: nat, k: int)
    ensures
        ({
            let s = ops_of(r, points);
            &&& points < 2 ==> s.len() == 0
            &&& points >= 2 ==> {
                let patterned = r.pen.pattern is Some && exists|j: int|
                    0 <= j < r.pen.pattern->0@.len() && (#[trigger] r.pen.pattern->0@[j]) is Marker;
                &&& s.contains(SegmentOp::Stroke) == !patterned
                &&& s.contains(SegmentOp::Pattern) == patterned
                &&& s.contains(SegmentOp::StartMarker) == (r.start_marker is Some)
                &&& s.contains(SegmentOp::EndMarker) == (r.end_marker is Some)
                &&& s.no_duplicates()
                &&& 0 <= k < s.len() && s[k] == SegmentOp::StartMarker ==> k == 0
                &&& 0 <= k < s.len() && s[k] == SegmentOp::EndMarker ==> k == s.len() - 1
            }
        }),
{
    let s = ops_of(r, points);
    if points >= 2 {
        let line = if marker_free(r.pen.pattern) {
            SegmentOp::Stroke
        } else {
            SegmentOp::Pattern
        };
        if r.start_marker is Some {
            assert(s[0] == SegmentOp::StartMarker && s[1] == line);
            if r.end_marker is Some {
                assert(s[2] == SegmentOp::EndMarker);
                assert(s.len() == 3);
            }
        } else {
            assert(s[0] == line);
            if r.end_marker is Some {
                assert(s[1] == SegmentOp::EndMarker);
                assert(s.len() == 2);
            }
        }
    }
}

} // verus!
