//! Bands between two curves.

use std::sync::Arc;
use vstd::prelude::*;

use crate::channel::Channel;
use crate::expr::{
    e_int, e_mul, e_sub, holds, points_in_pixels, real_clamp, value, well_defined, Env, Expr,
    Quantity,
};
use crate::geom::ribbon_bspline::{
    contour_of, curve_parameter, degree_of, fans_of, fill_ops, fill_varies, first_edge, is_blend,
    is_degenerate, is_fan_plan, is_plan, is_shown, middle_of, ops_of, orientation_of, outline_of,
    place_of, row_of, second_edge, shown_marks, spans, CapFan, ContourPoint, CurveFacts,
    EdgeOutline, FanPlan, GridMerge, InterpolationSpace, Orientation, OutlineNames, Ribbon,
    RibbonOp, RibbonRow, VertexBlend,
};
use crate::laws::data::{
    is_put, put, px, rows_lie_where_the_data_put_them, says, values_are_taken_for_what_they_are,
    zero_is_nought,
};
use crate::laws::segment::{
    end_markers_are_those_asked_for, is_marker_of, lines_give_way_to_their_markers,
    panels_with_room,
};
use crate::marks::MarkSlot;
use crate::num::Num;
use crate::projection::real_abs;
use crate::resolve::{cap_named, join_named, pick_for, Source};
use crate::scene::Point;
use crate::theme::RibbonTheme;
use crate::value::{Color, Value};

verus! {

/// A band that has `x2` beside `x` lies upright, one that has `y2` beside `y` lies
/// level, one that has both lies as it will, and one that has neither is none.
pub proof fn bands_lie_as_their_channels_say(channels: Map<Seq<char>, Channel>)
    ensures
        orientation_of(channels) is None <==> !channels.contains_key("x2"@)
            && !channels.contains_key("y2"@),
        orientation_of(channels) == Some(Orientation::Vertical) <==> channels.contains_key("x2"@)
            && !channels.contains_key("y2"@),
        orientation_of(channels) == Some(Orientation::Horizontal) <==> !channels.contains_key(
            "x2"@,
        ) && channels.contains_key("y2"@),
        orientation_of(channels) == Some(Orientation::Free) <==> channels.contains_key("x2"@)
            && channels.contains_key("y2"@),
{
}

/// Whether a row of a band lies where the data put row `i`: the first edge at `x`
/// and `y`; the second at `x` and `y2` in a level band, at `x2` and `y` in an
/// upright one, and at `x2` and `y2` in one that lies as it will.
pub open spec fn edges_lie(r: RibbonRow, src: Source, o: Orientation, i: int, env: Env) -> bool {
    &&& is_put(src, "x"@, i) ==> value(r.a.a, env) == put(src, "x"@, i, 0real)
    &&& is_put(src, "y"@, i) ==> value(r.a.b, env) == put(src, "y"@, i, 0real)
    &&& o == Orientation::Horizontal ==> {
        &&& r.b.a == r.a.a
        &&& is_put(src, "y2"@, i) ==> value(r.b.b, env) == put(src, "y2"@, i, 0real)
    }
    &&& o == Orientation::Vertical ==> {
        &&& r.b.b == r.a.b
        &&& is_put(src, "x2"@, i) ==> value(r.b.a, env) == put(src, "x2"@, i, 0real)
    }
    &&& o == Orientation::Free ==> {
        &&& is_put(src, "x2"@, i) ==> value(r.b.a, env) == put(src, "x2"@, i, 0real)
        &&& is_put(src, "y2"@, i) ==> value(r.b.b, env) == put(src, "y2"@, i, 0real)
    }
}

proof fn places_are_those_of_the_data(src: Source, name: Seq<char>, i: int, env: Env)
    requires
        is_put(src, name, i),
    ensures
        value(place_of(src, name, i), env) == put(src, name, i, 0real),
{
    zero_is_nought();
    rows_lie_where_the_data_put_them(src, name, i, Num { bits: 0 }, env);
}

/// In every row of a band both edges lie where the row's own data put them. The
/// row counts exactly where all four of its numbers are finite, and takes its own
/// colour and opacity.
pub proof fn edges_run_along_the_rows_own_data(
    p: Ribbon,
    src: Source,
    theme: RibbonTheme,
    orientation: Orientation,
    mark: MarkSlot,
    k: int,
    env: Env,
)
    requires
        is_plan(p, src, theme, orientation, mark),
        0 <= k < mark.rows@.len(),
    ensures
        p.rows@.len() == mark.rows@.len(),
        ({
            let r = p.rows@[k];
            let i = mark.rows@[k] as int;
            &&& r.row == i
            &&& edges_lie(r, src, orientation, i, env)
            &&& holds(r.placed, env) <==> well_defined(r.a.a, env) && well_defined(r.a.b, env)
                && well_defined(r.b.a, env) && well_defined(r.b.b, env)
            &&& match src.value_at("fill"@, i) {
                Some(Value::Color(c)) => r.fill == Some(c),
                _ => r.fill is None,
            }
            &&& r.alpha == src.number_at("alpha"@, i)
        }),
{
    let r = p.rows@[k];
    let i = mark.rows@[k] as int;
    assert(r == row_of(src, orientation, i));
    if is_put(src, "x"@, i) {
        places_are_those_of_the_data(src, "x"@, i, env);
    }
    if is_put(src, "y"@, i) {
        places_are_those_of_the_data(src, "y"@, i, env);
    }
    if is_put(src, "x2"@, i) {
        places_are_those_of_the_data(src, "x2"@, i, env);
    }
    if is_put(src, "y2"@, i) {
        places_are_those_of_the_data(src, "y2"@, i, env);
    }
    reveal_with_fuel(holds, 4);
}

/// A band is drawn for each mark that has a fill or the stroke of an edge, of its
/// own or the theme's, in order and once.
pub proof fn bands_are_drawn_for_marks_with_something_to_draw(
    src: Source,
    theme: RibbonTheme,
    marks: Seq<MarkSlot>,
    n: nat,
)
    requires
        n <= marks.len(),
    ensures
        forall|m: int|
            0 <= m < n ==> (shown_marks(src, theme, marks, n).contains(#[trigger] marks[m]) <== ({
                let i = marks[m].first_row as int;
                ||| theme.fill is Some || theme.stroke is Some
                ||| src.color_at("fill"@, i) is Some
                ||| src.color_at("stroke"@, i) is Some
                ||| src.color_at("stroke2"@, i) is Some
            })),
        forall|k: int|
            0 <= k < shown_marks(src, theme, marks, n).len() ==> {
                let i = (#[trigger] shown_marks(src, theme, marks, n)[k]).first_row as int;
                ||| theme.fill is Some || theme.stroke is Some
                ||| src.color_at("fill"@, i) is Some
                ||| src.color_at("stroke"@, i) is Some
                ||| src.color_at("stroke2"@, i) is Some
            },
        shown_marks(src, theme, marks, n).len() <= n,
    decreases n,
{
    if n > 0 {
        bands_are_drawn_for_marks_with_something_to_draw(src, theme, marks, (n - 1) as nat);
        let s = shown_marks(src, theme, marks, n);
        let t = shown_marks(src, theme, marks, (n - 1) as nat);
        let shown = is_shown(src, theme, marks[n - 1].first_row as int);
        assert forall|m: int|
            0 <= m < n && is_shown(
                src,
                theme,
                (#[trigger] marks[m]).first_row as int,
            ) implies s.contains(marks[m]) by {
            if m < n - 1 {
                if t.contains(marks[m]) {
                    let k = choose|k: int| 0 <= k < t.len() && t[k] == marks[m];
                    assert(s[k] == marks[m]);
                }
            } else if shown {
                assert(s[t.len() as int] == marks[m]);
            }
        }
    }
}

/// Whether an outline is the one that its own channels ask for in row `i`.
pub open spec fn is_outline_of(
    o: Option<EdgeOutline>,
    src: Source,
    theme: RibbonTheme,
    names: OutlineNames,
    i: int,
    env: Env,
) -> bool {
    let lw = says(src, names.linewidth@, i, theme.linewidth_pt.value());
    match o {
        Some(e) => {
            &&& match src.color_at(names.stroke@, i) {
                Some(c) => e.stroke.color == c,
                None => theme.stroke == Some(e.stroke.color),
            }
            &&& e.stroke.opacity == src.number_at("alpha"@, i)
            &&& value(e.pen.width, env) == px(lw, env)
            &&& holds(e.when, env) <==> well_defined(e.pen.width, env) && px(lw, env) > 0real
            &&& e.pen.cap == cap_named(src.string_at(names.cap@, i), theme.cap)
            &&& e.pen.join == join_named(src.string_at(names.join@, i), theme.join)
            &&& e.pen.pattern == src.linetype_at(names.linetype@, i)
            &&& value(e.pen.dash_offset, env) == px(says(src, names.dash_offset@, i, 0real), env)
            &&& is_marker_of(
                e.start_marker,
                src,
                names.start_marker@,
                names.start_size@,
                names.start_fill@,
                names.start_invert@,
                i,
                lw,
                e.stroke,
                env,
            )
            &&& is_marker_of(
                e.end_marker,
                src,
                names.end_marker@,
                names.end_size@,
                names.end_fill@,
                names.end_invert@,
                i,
                lw,
                e.stroke,
                env,
            )
            &&& value(e.clip_start, env) == says(src, names.clip_start@, i, 0real) + (
            match src.value_at(names.start_marker@, i) {
                Some(Value::String(s)) => if s@.len() == 0 {
                    0real
                } else {
                    (env.var)(Quantity::StartReach) * says(src, names.start_size@, i, 3real * lw)
                },
                _ => 0real,
            })
            &&& value(e.clip_end, env) == says(src, names.clip_end@, i, 0real) + (
            match src.value_at(names.end_marker@, i) {
                Some(Value::String(s)) => if s@.len() == 0 {
                    0real
                } else {
                    (env.var)(Quantity::EndReach) * says(src, names.end_size@, i, 3real * lw)
                },
                _ => 0real,
            })
        },
        None => src.color_at(names.stroke@, i) is None && theme.stroke is None,
    }
}

proof fn outlines_are_those_asked_for(
    src: Source,
    theme: RibbonTheme,
    names: OutlineNames,
    i: int,
    env: Env,
)
    ensures
        is_outline_of(outline_of(src, theme, names, i), src, theme, names, i, env),
{
    let zero = Num { bits: 0 };
    zero_is_nought();
    let lw = src.number_or(names.linewidth@, i, theme.linewidth_pt);
    values_are_taken_for_what_they_are(src, names.linewidth@, i, theme.linewidth_pt);
    values_are_taken_for_what_they_are(src, names.dash_offset@, i, zero);
    let l = Expr::Lit(lw);
    let d = Expr::Lit(src.number_or(names.dash_offset@, i, zero));
    points_in_pixels(l, env);
    points_in_pixels(d, env);
    assert(value(l, env) == lw.value());
    assert(value(d, env) == src.number_or(names.dash_offset@, i, zero).value());
    assert(value(e_int(0), env) == 0real) by {
        assert(0real / 1real == 0real);
    }
    if let Some(e) = outline_of(src, theme, names, i) {
        end_markers_are_those_asked_for(
            src,
            names.start_marker@,
            names.start_size@,
            names.start_fill@,
            names.start_invert@,
            i,
            lw,
            e.stroke,
            env,
        );
        end_markers_are_those_asked_for(
            src,
            names.end_marker@,
            names.end_size@,
            names.end_fill@,
            names.end_invert@,
            i,
            lw,
            e.stroke,
            env,
        );
        lines_give_way_to_their_markers(
            src,
            names.clip_start@,
            names.start_marker@,
            names.start_size@,
            Quantity::StartReach,
            i,
            lw,
            env,
        );
        lines_give_way_to_their_markers(
            src,
            names.clip_end@,
            names.end_marker@,
            names.end_size@,
            Quantity::EndReach,
            i,
            lw,
            env,
        );
        reveal_with_fuel(holds, 3);
    }
}

/// Whether these are the channels of an outline, each with `suffix` behind it.
pub open spec fn are_outline_names(n: OutlineNames, suffix: Seq<char>) -> bool {
    &&& n.stroke@ == "stroke"@ + suffix
    &&& n.linewidth@ == "linewidth"@ + suffix
    &&& n.linetype@ == "linetype"@ + suffix
    &&& n.dash_offset@ == "dash_offset"@ + suffix
    &&& n.cap@ == "cap"@ + suffix
    &&& n.join@ == "join"@ + suffix
    &&& n.clip_start@ == "clip_start_radius"@ + suffix
    &&& n.clip_end@ == "clip_end_radius"@ + suffix
    &&& n.start_marker@ == "start_marker"@ + suffix
    &&& n.end_marker@ == "end_marker"@ + suffix
    &&& n.start_size@ == "start_marker_size"@ + suffix
    &&& n.end_size@ == "end_marker_size"@ + suffix
    &&& n.start_fill@ == "start_marker_fill"@ + suffix
    &&& n.end_fill@ == "end_marker_fill"@ + suffix
    &&& n.start_invert@ == "start_marker_invert"@ + suffix
    &&& n.end_invert@ == "end_marker_invert"@ + suffix
}

/// The second edge is outlined by the channels of the first with a two behind
/// their names.
pub proof fn the_second_edge_has_channels_of_its_own()
    ensures
        are_outline_names(first_edge(), Seq::empty()),
        are_outline_names(second_edge(), seq!['2']),
{
    assert("stroke"@ + Seq::<char>::empty() =~= "stroke"@);
    assert("stroke2"@ =~= "stroke"@ + seq!['2']) by {
        reveal_strlit("stroke");
        reveal_strlit("stroke2");
    }
    assert("linewidth"@ + Seq::<char>::empty() =~= "linewidth"@);
    assert("linewidth2"@ =~= "linewidth"@ + seq!['2']) by {
        reveal_strlit("linewidth");
        reveal_strlit("linewidth2");
    }
    assert("linetype"@ + Seq::<char>::empty() =~= "linetype"@);
    assert("linetype2"@ =~= "linetype"@ + seq!['2']) by {
        reveal_strlit("linetype");
        reveal_strlit("linetype2");
    }
    assert("dash_offset"@ + Seq::<char>::empty() =~= "dash_offset"@);
    assert("dash_offset2"@ =~= "dash_offset"@ + seq!['2']) by {
        reveal_strlit("dash_offset");
        reveal_strlit("dash_offset2");
    }
    assert("cap"@ + Seq::<char>::empty() =~= "cap"@);
    assert("cap2"@ =~= "cap"@ + seq!['2']) by {
        reveal_strlit("cap");
        reveal_strlit("cap2");
    }
    assert("join"@ + Seq::<char>::empty() =~= "join"@);
    assert("join2"@ =~= "join"@ + seq!['2']) by {
        reveal_strlit("join");
        reveal_strlit("join2");
    }
    assert("clip_start_radius"@ + Seq::<char>::empty() =~= "clip_start_radius"@);
    assert("clip_start_radius2"@ =~= "clip_start_radius"@ + seq!['2']) by {
        reveal_strlit("clip_start_radius");
        reveal_strlit("clip_start_radius2");
    }
    assert("clip_end_radius"@ + Seq::<char>::empty() =~= "clip_end_radius"@);
    assert("clip_end_radius2"@ =~= "clip_end_radius"@ + seq!['2']) by {
        reveal_strlit("clip_end_radius");
        reveal_strlit("clip_end_radius2");
    }
    assert("start_marker"@ + Seq::<char>::empty() =~= "start_marker"@);
    assert("start_marker2"@ =~= "start_marker"@ + seq!['2']) by {
        reveal_strlit("start_marker");
        reveal_strlit("start_marker2");
    }
    assert("end_marker"@ + Seq::<char>::empty() =~= "end_marker"@);
    assert("end_marker2"@ =~= "end_marker"@ + seq!['2']) by {
        reveal_strlit("end_marker");
        reveal_strlit("end_marker2");
    }
    assert("start_marker_size"@ + Seq::<char>::empty() =~= "start_marker_size"@);
    assert("start_marker_size2"@ =~= "start_marker_size"@ + seq!['2']) by {
        reveal_strlit("start_marker_size");
        reveal_strlit("start_marker_size2");
    }
    assert("end_marker_size"@ + Seq::<char>::empty() =~= "end_marker_size"@);
    assert("end_marker_size2"@ =~= "end_marker_size"@ + seq!['2']) by {
        reveal_strlit("end_marker_size");
        reveal_strlit("end_marker_size2");
    }
    assert("start_marker_fill"@ + Seq::<char>::empty() =~= "start_marker_fill"@);
    assert("start_marker_fill2"@ =~= "start_marker_fill"@ + seq!['2']) by {
        reveal_strlit("start_marker_fill");
        reveal_strlit("start_marker_fill2");
    }
    assert("end_marker_fill"@ + Seq::<char>::empty() =~= "end_marker_fill"@);
    assert("end_marker_fill2"@ =~= "end_marker_fill"@ + seq!['2']) by {
        reveal_strlit("end_marker_fill");
        reveal_strlit("end_marker_fill2");
    }
    assert("start_marker_invert"@ + Seq::<char>::empty() =~= "start_marker_invert"@);
    assert("start_marker_invert2"@ =~= "start_marker_invert"@ + seq!['2']) by {
        reveal_strlit("start_marker_invert");
        reveal_strlit("start_marker_invert2");
    }
    assert("end_marker_invert"@ + Seq::<char>::empty() =~= "end_marker_invert"@);
    assert("end_marker_invert2"@ =~= "end_marker_invert"@ + seq!['2']) by {
        reveal_strlit("end_marker_invert");
        reveal_strlit("end_marker_invert2");
    }
}

/// Everything but its rows a band takes from the first row of its mark: its colour,
/// the outline of each edge, its degree, the space it is bent in, and its id.
pub proof fn bands_look_as_their_first_row_says(
    p: Ribbon,
    src: Source,
    theme: RibbonTheme,
    orientation: Orientation,
    mark: MarkSlot,
    env: Env,
)
    requires
        is_plan(p, src, theme, orientation, mark),
    ensures
        ({
            let i = mark.first_row as int;
            &&& holds(p.when, env) <==> (env.var)(Quantity::PanelX1) > (env.var)(Quantity::PanelX0)
                && (env.var)(Quantity::PanelY1) > (env.var)(Quantity::PanelY0)
            &&& match p.fill {
                Some(f) => {
                    &&& match src.color_at("fill"@, i) {
                        Some(c) => f.color == c,
                        None => theme.fill == Some(f.color),
                    }
                    &&& f.opacity == src.number_at("alpha"@, i)
                },
                None => src.color_at("fill"@, i) is None && theme.fill is None,
            }
            &&& is_outline_of(p.outline_a, src, theme, first_edge(), i, env)
            &&& is_outline_of(p.outline_b, src, theme, second_edge(), i, env)
            &&& p.space == InterpolationSpace::Panel <==> (src.value_at(
                "interpolation"@,
                i,
            ) matches Some(Value::String(s)) && s@ == "panel"@)
            &&& p.pick == pick_for(src.number_at("pick_id"@, i))
            &&& src.number_at("degree"@, i) is None ==> p.degree == 3
        }),
{
    let i = mark.first_row as int;
    panels_with_room(env);
    outlines_are_those_asked_for(src, theme, first_edge(), i, env);
    outlines_are_those_asked_for(src, theme, second_edge(), i, env);
}

/// A degree is the number in its channel with its fraction cut off.
pub proof fn degrees_are_cut_to_whole_numbers(src: Source, i: int, n: Num, d: u64)
    requires
        src.number_at("degree"@, i) == Some(n),
        n.finite(),
        1 <= d < 9007199254740992,
        d as real <= n.value() < d as real + 1real,
    ensures
        degree_of(src, i) == d,
{
    assert(n.is_cut_to(d));
    let c = choose|c: u64| n.is_cut_to(c);
    assert(n.is_cut_to(c));
    assert(c as real <= n.value() < c as real + 1real);
    assert((c as real) < (d as real) + 1real);
    assert((d as real) < (c as real) + 1real);
    assert(c < d + 1 && d < c + 1);
}

/// A curve needs one control point more than its degree.
pub proof fn curves_need_enough_points(degree: u64, controls: nat)
    ensures
        is_degenerate(degree, controls) <==> controls < 2 || controls <= degree,
{
}

/// A place among `n` control points leads to a point of the curve in proportion:
/// the curve runs from nought to `n` less its degree while the places run from
/// nought to `n` less one.
pub proof fn places_run_along_the_curve_evenly(u: Num, degree: u64, n: nat, env: Env)
    requires
        2 <= n <= 0x7FFF_FFFF_FFFF_FFFF,
        !is_degenerate(degree, n),
    ensures
        value(curve_parameter(u, degree, n), env) * ((n - 1) as real) == u.value() * ((n
            - degree) as real),
{
    let top = Expr::Ratio((n - degree) as i64, 1);
    let bottom = Expr::Ratio((n - 1) as i64, 1);
    let p = (n - degree) as real;
    let q = (n - 1) as real;
    let v = u.value();
    assert(p / 1real == p && q / 1real == q);
    assert(value(top, env) == p && value(bottom, env) == q);
    assert(value(Expr::Lit(u), env) == v);
    assert(value(e_mul(Expr::Lit(u), top), env) == v * p);
    let e = value(curve_parameter(u, degree, n), env);
    assert(e == (v * p) / q);
    let w = v * p;
    assert((w / q) * q == w) by (nonlinear_arith)
        requires
            q > 0real,
    ;
}

/// At a place among the control points the colour is mixed of those before and
/// behind it, by how far it has come from the one to the other. On a control point
/// it is that point's own.
pub proof fn colours_are_mixed_of_their_neighbours(r: VertexBlend, u: Num, n: nat, k: u64, env: Env)
    requires
        0 < n <= 0x7FFF_FFFF_FFFF_FFFF,
        is_blend(r, u, n),
        u.finite(),
        k < n,
        k as real <= u.value() < k as real + 1real,
        u.value() <= (n - 1) as real,
        k < 9007199254740992,
    ensures
        r.lo == k,
        r.hi == (if k + 1 < n {
            k + 1
        } else {
            k as int
        }),
        value(r.t, env) == u.value() - k as real,
        holds(r.on_row, env) <==> k + 1 == n || u.value() - (k as real) < 1real / 1_000_000_000real,
{
    let c = choose|c: u64| u.is_cut_to(c);
    assert(u.is_cut_to(k));
    assert(u.is_cut_to(c));
    if u.value() < 1real {
        assert(c == 0);
        assert((k as real) < 1real);
        assert(k == 0);
    } else {
        assert(c as real <= u.value() < c as real + 1real);
        assert((c as real) < k as real + 1real && (k as real) < c as real + 1real);
        assert(c == k);
    }
    let l = Expr::Lit(u);
    let top = Expr::Ratio((n - 1) as i64, 1);
    let lo = Expr::Ratio(r.lo as i64, 1);
    assert(value(l, env) == u.value());
    assert(value(e_int(0), env) == 0real) by {
        assert(0real / 1real == 0real);
    }
    let t = (n - 1) as real;
    let f = r.lo as real;
    assert(t / 1real == t && f / 1real == f);
    assert(value(top, env) == t && value(lo, env) == f);
    let kept = crate::expr::e_clamp(l, e_int(0), top);
    assert(value(kept, env) == real_clamp(u.value(), 0real, t));
    assert(value(kept, env) == u.value());
    assert(value(e_sub(kept, lo), env) == u.value() - f);
    assert(value(Expr::Abs(std::sync::Arc::new(r.t)), env) == u.value() - f);
    assert(value(Expr::Ratio(1, 1_000_000_000), env) == 1real / 1_000_000_000real);
}

/// The middle between two points is as far from the one as from the other.
pub proof fn middles_lie_halfway(a: Point, b: Point, env: Env)
    ensures
        ({
            let m = middle_of(a, b);
            &&& value(m.x, env) - value(a.x, env) == value(b.x, env) - value(m.x, env)
            &&& value(m.y, env) - value(a.y, env) == value(b.y, env) - value(m.y, env)
        }),
{
    let sx = crate::expr::e_add(a.x, b.x);
    let sy = crate::expr::e_add(a.y, b.y);
    let half = crate::expr::e_half();
    assert(value(half, env) == 1real / 2real);
    assert(value(sx, env) == value(a.x, env) + value(b.x, env));
    assert(value(sy, env) == value(a.y, env) + value(b.y, env));
    assert(value(e_mul(sx, half), env) == value(sx, env) * (1real / 2real));
    assert(value(e_mul(sy, half), env) == value(sy, env) * (1real / 2real));
}

/// A contour goes out along the first edge, over the end, back along the second
/// edge from its end to its start, and over the start.
pub proof fn contours_go_out_and_come_back(a: nat, end: nat, b: nat, start: nat, k: int)
    requires
        0 <= k < a + end + b + start,
    ensures
        contour_of(a, end, b, start)[k] == (if k < a {
            ContourPoint::A(k as usize)
        } else if k < a + end {
            ContourPoint::EndCap((k - a) as usize)
        } else if k < a + end + b {
            ContourPoint::B((a + end + b - 1 - k) as usize)
        } else {
            ContourPoint::StartCap((k - a - end - b) as usize)
        }),
{
}

/// A band varies exactly where two of its rows differ in fill or opacity.
pub proof fn bands_vary_where_two_rows_differ(rows: Seq<RibbonRow>, kept: Seq<usize>)
    ensures
        fill_varies(rows, kept) <==> exists|j: int, k: int|
            0 <= j < kept.len() && 0 <= k < kept.len() && ((#[trigger] rows[kept[j] as int]).fill
                != (#[trigger] rows[kept[k] as int]).fill || rows[kept[j] as int].alpha
                != rows[kept[k] as int].alpha),
{
    if fill_varies(rows, kept) {
        let k = choose|k: int|
            0 < k < kept.len() && crate::geom::ribbon_bspline::differs(
                rows[kept[0] as int],
                rows[#[trigger] kept[k] as int],
            );
        let a = rows[kept[0] as int];
        let b = rows[kept[k] as int];
        assert(a.fill != b.fill || a.alpha != b.alpha);
    }
    if exists|j: int, k: int|
        0 <= j < kept.len() && 0 <= k < kept.len() && ((#[trigger] rows[kept[j] as int]).fill != (
        #[trigger] rows[kept[k] as int]).fill || rows[kept[j] as int].alpha
            != rows[kept[k] as int].alpha) {
        let (j, k) = choose|j: int, k: int|
            0 <= j < kept.len() && 0 <= k < kept.len() && ((#[trigger] rows[kept[j] as int]).fill
                != (#[trigger] rows[kept[k] as int]).fill || rows[kept[j] as int].alpha
                != rows[kept[k] as int].alpha);
        if !fill_varies(rows, kept) {
            let first = rows[kept[0] as int];
            assert(j > 0 ==> !crate::geom::ribbon_bspline::differs(first, rows[kept[j] as int]));
            assert(k > 0 ==> !crate::geom::ribbon_bspline::differs(first, rows[kept[k] as int]));
        }
    }
}

/// A band of two control points and two points on either edge is filled in one
/// colour where it does not vary, and by a mesh where it does and there is one; its
/// outlines come on top, the first edge's and then the second's. Of any other
/// band nothing is drawn.
pub proof fn bands_are_filled_and_then_outlined(
    filled: bool,
    outline_a: bool,
    outline_b: bool,
    varies: bool,
    facts: CurveFacts,
)
    ensures
        ({
            let s = ops_of(filled, outline_a, outline_b, varies, facts);
            let drawn = facts.controls >= 2 && facts.a >= 2 && facts.b >= 2;
            let n = s.len();
            &&& !drawn ==> n == 0
            &&& drawn ==> {
                &&& s.contains(RibbonOp::Fill) <==> filled && !varies
                &&& s.contains(RibbonOp::Mesh) <==> filled && varies && facts.shared >= 2
                    && facts.meshed
                &&& s.contains(RibbonOp::OutlineA) <==> outline_a
                &&& s.contains(RibbonOp::OutlineB) <==> outline_b
                &&& outline_b ==> s[n - 1] == RibbonOp::OutlineB
                &&& outline_a && !outline_b ==> s[n - 1] == RibbonOp::OutlineA
                &&& outline_a && outline_b ==> s[n - 2] == RibbonOp::OutlineA
            }
        }),
{
    let s = ops_of(filled, outline_a, outline_b, varies, facts);
    if spans(facts) {
        let f = fill_ops(filled, varies, facts);
        let n = f.len();
        if filled && !varies {
            assert(s[0] == RibbonOp::Fill);
        }
        if filled && varies && facts.shared >= 2 && facts.meshed {
            assert(s[1] == RibbonOp::Mesh);
        }
        if outline_a {
            assert(s[n as int] == RibbonOp::OutlineA);
        }
        if outline_b {
            assert(s[s.len() - 1] == RibbonOp::OutlineB);
        }
    }
}

/// A mesh has a fan at either end, in that order: each at a shared place on the
/// outside, with the one beside it, on the side of the mesh, for a neighbour.
pub proof fn fans_stand_at_both_ends(shared: usize, k: int)
    requires
        shared >= 2,
        0 <= k < fans_of(shared).len(),
    ensures
        ({
            let f = fans_of(shared)[k];
            &&& fans_of(shared).len() == 2
            &&& f.at_start == (k == 0)
            &&& f.at_start ==> f.corner == 0 && f.neighbor == f.corner + 1
            &&& !f.at_start ==> f.corner + 1 == shared && f.neighbor + 1 == f.corner
        }),
{
}

/// A fan spans the two edges where they end, is told the side of the mesh by the
/// point halfway between them one place further in, and follows the cap of its own
/// end.
pub proof fn fans_span_the_edges(
    r: FanPlan,
    fan: CapFan,
    a: Seq<Point>,
    b: Seq<Point>,
    places: Seq<Num>,
    controls: nat,
    start_cap: Seq<Point>,
    end_cap: Seq<Point>,
    env: Env,
)
    requires
        is_fan_plan(r, fan, a, b, places, controls, start_cap, end_cap),
    ensures
        ({
            let c = fan.corner as int;
            let n = fan.neighbor as int;
            &&& r.a == a[c] && r.b == b[c]
            &&& 2real * value(r.neighbor.x, env) == value(a[n].x, env) + value(b[n].x, env)
            &&& 2real * value(r.neighbor.y, env) == value(a[n].y, env) + value(b[n].y, env)
            &&& is_blend(r.color, places[c], controls)
            &&& fan.at_start ==> r.at_start && r.samples@ == start_cap
            &&& !fan.at_start ==> !r.at_start && r.samples@ == end_cap
        }),
{
    let n = fan.neighbor as int;
    middles_lie_halfway(a[n], b[n], env);
}

/// Places of the two edges are taken for one where they lie within a billionth of
/// each other.
pub proof fn close_places_are_one(m: GridMerge, env: Env)
    requires
        m.wf(),
        m.seen < m.places@.len(),
    ensures
        holds(m.c_close(), env) == ({
            let d = m.places@[m.seen as int].value() - m.kept@[m.kept@.len() - 1].value();
            real_abs(d) < 1real / 1_000_000_000real
        }),
{
    let a = Expr::Lit(m.places@[m.seen as int]);
    let b = Expr::Lit(m.kept@[m.kept@.len() - 1]);
    assert(value(a, env) == m.places@[m.seen as int].value());
    assert(value(b, env) == m.kept@[m.kept@.len() - 1].value());
    assert(value(e_sub(a, b), env) == value(a, env) - value(b, env));
    assert(value(Expr::Abs(Arc::new(e_sub(a, b))), env) == real_abs(value(e_sub(a, b), env)));
    assert(value(Expr::Ratio(1, 1_000_000_000), env) == 1real / 1_000_000_000real);
}

} // verus!
