//! What the data say: how channels and scales are read, and where they put a row.

use std::sync::Arc;
use vstd::prelude::*;

use crate::channel::Channel;
use crate::expr::{points_in_pixels, value, Env, Expr, Quantity};
use crate::geom::place::{fractions_at, moved};
use crate::num::{power_of_two, two_to, two_to_reciprocal, two_to_step, Num};
use crate::pick::PickId;
use crate::projection::Projection;
use crate::resolve::{align_named, cap_named, italic_in, join_named, pick_for, Source};
use crate::scene::{Cap, HAlign, Join, Paint, Point};
use crate::value::{Color, DataColumn, Value};

verus! {

/// So many points, in pixels.
pub open spec fn px(points: real, env: Env) -> real {
    points * (env.var)(Quantity::Dpi) / 72real
}

/// The number in a channel in row `i`, or `default`.
pub open spec fn says(src: Source, name: Seq<char>, i: int, default: real) -> real {
    match src.value_at(name, i) {
        Some(Value::Number(n)) => n.value(),
        Some(Value::Date(n)) => n.value(),
        Some(Value::DateTime(n)) => n.value(),
        Some(Value::Time(n)) => n.value(),
        Some(Value::Duration(n)) => n.value(),
        _ => default,
    }
}

/// Whether a scale places a channel.
pub open spec fn is_scaled(src: Source, name: Seq<char>) -> bool {
    &&& src.positions.contains_key(name)
    &&& src.channels[name] is Data || src.channels[name] is Constant
}

/// Whether the data put row `i` somewhere along a channel: its scale does, or
/// where no scale places it, the channel holds a number there.
pub open spec fn is_put(src: Source, name: Seq<char>, i: int) -> bool {
    &&& src.channels.contains_key(name)
    &&& is_scaled(src, name) ==> 0 <= i < src.positions[name]@.len()
    &&& !is_scaled(src, name) ==> match src.channels[name] {
        Channel::Constant(Value::Number(_)) => true,
        Channel::RawConstant(Value::Number(_)) => true,
        Channel::Data(DataColumn::F64(v)) => 0 <= i < v@.len(),
        Channel::RawData(DataColumn::F64(v)) => 0 <= i < v@.len(),
        _ => false,
    }
}

/// Where the data put row `i` along a channel, as a fraction of the panel: at the
/// centre of its place, or so many times the room that the place takes further
/// on, and without a scale at the number itself.
pub open spec fn put(src: Source, name: Seq<char>, i: int, bands: real) -> real {
    if is_scaled(src, name) {
        let p = src.positions[name]@[i];
        p.center.value() + bands * p.band.value()
    } else {
        match src.channels[name] {
            Channel::Constant(Value::Number(n)) => n.value(),
            Channel::RawConstant(Value::Number(n)) => n.value(),
            Channel::Data(DataColumn::F64(v)) => v@[i].value(),
            Channel::RawData(DataColumn::F64(v)) => v@[i].value(),
            _ => 0real,
        }
    }
}

/// How much room the place of row `i` takes, as a fraction of the panel.
pub open spec fn room(src: Source, name: Seq<char>, i: int) -> real {
    if is_scaled(src, name) {
        src.positions[name]@[i].band.value()
    } else {
        0real
    }
}

/// A column without a scale, or one that bypasses it, holds in each row its own
/// cell and no other's. Past its end there is nothing.
pub proof fn columns_are_read_row_by_row(src: Source, name: Seq<char>, c: DataColumn, i: int)
    requires
        src.channels.contains_key(name),
        src.channels[name] == Channel::RawData(c) || src.channels[name] == Channel::Data(c)
            && !src.values.contains_key(name),
    ensures
        match c {
            DataColumn::F64(v) => {
                &&& 0 <= i < v@.len() ==> src.value_at(name, i) == Some(Value::Number(v@[i]))
                &&& v@.len() <= i ==> src.value_at(name, i) == Some(Value::Null)
            },
            DataColumn::String(v) => {
                &&& 0 <= i < v@.len() ==> src.value_at(name, i) == Some(Value::String(v@[i]))
                &&& v@.len() <= i ==> src.value_at(name, i) == Some(Value::Null)
            },
            DataColumn::Bool(v) => {
                &&& 0 <= i < v@.len() ==> src.value_at(name, i) == Some(Value::Bool(v@[i]))
                &&& v@.len() <= i ==> src.value_at(name, i) == Some(Value::Null)
            },
            DataColumn::Color(v) => {
                &&& 0 <= i < v@.len() ==> src.value_at(name, i) == Some(Value::Color(v@[i]))
                &&& v@.len() <= i ==> src.value_at(name, i) == Some(Value::Null)
            },
            DataColumn::Values(v) => {
                &&& 0 <= i < v@.len() ==> src.value_at(name, i) == Some(v@[i])
                &&& v@.len() <= i ==> src.value_at(name, i) == Some(Value::Null)
            },
        },
{
}

/// A channel that does not bypass its scale holds what the scale makes of it.
pub proof fn scales_have_their_say(src: Source, name: Seq<char>, out: Arc<Vec<Value>>, i: int)
    requires
        src.channels.contains_key(name),
        src.channels[name] is Data || src.channels[name] is Constant,
        src.values.contains_key(name),
        src.values[name] == out,
        0 <= i < out@.len(),
    ensures
        src.value_at(name, i) == Some(out@[i]),
{
}

/// A constant without a scale, or one that bypasses it, is the same in every row.
/// A channel that is not there holds nothing.
pub proof fn constants_hold_for_every_row(src: Source, name: Seq<char>, v: Value, i: int)
    ensures
        src.channels.contains_key(name) && src.channels[name] == Channel::RawConstant(v)
            ==> src.value_at(name, i) == Some(v),
        src.channels.contains_key(name) && src.channels[name] == Channel::Constant(v)
            && !src.values.contains_key(name) ==> src.value_at(name, i) == Some(v),
        !src.channels.contains_key(name) ==> src.value_at(name, i) is None,
{
}

/// What a channel holds is taken for a number, a colour, a string, a truth value
/// or a line pattern if it is one, and for nothing else.
pub proof fn values_are_taken_for_what_they_are(src: Source, name: Seq<char>, i: int, d: Num)
    ensures
        src.number_or(name, i, d).value() == says(src, name, i, d.value()),
        src.number_at(name, i) is None ==> src.number_or(name, i, d) == d,
        src.number_at(name, i) matches Some(n) ==> src.number_or(name, i, d) == n && n.value()
            == says(src, name, i, 0real),
        src.value_at(name, i) is None ==> src.number_at(name, i) is None && src.color_at(
            name,
            i,
        ) is None && src.string_at(name, i) is None && src.linetype_at(name, i) is None,
        match src.value_at(name, i) {
            Some(Value::Color(c)) => src.color_at(name, i) == Some(c),
            _ => src.color_at(name, i) is None,
        },
        match src.value_at(name, i) {
            Some(Value::String(s)) => src.string_at(name, i) == Some(s),
            _ => src.string_at(name, i) is None,
        },
        match src.value_at(name, i) {
            Some(Value::Linetype(l)) => src.linetype_at(name, i) == Some(l),
            _ => src.linetype_at(name, i) is None,
        },
        match src.value_at(name, i) {
            Some(Value::Bool(b)) => src.bool_or(name, i, true) == b && src.bool_or(name, i, false)
                == b,
            _ => src.bool_or(name, i, true) && !src.bool_or(name, i, false),
        },
        src.value_at(name, i) matches Some(Value::Number(n)) ==> src.number_at(name, i) == Some(n),
{
}

/// A colour goes before the theme's, and an opacity beside it replaces its alpha.
pub proof fn colours_go_before_the_theme(
    src: Source,
    name: Seq<char>,
    opacity: Seq<char>,
    i: int,
    theme: Option<Color>,
)
    ensures
        src.color_at(name, i) matches Some(c) ==> src.color_or(name, i, theme) == Some(c),
        src.color_at(name, i) is None ==> src.color_or(name, i, theme) == theme,
        match src.color_or(name, i, theme) {
            Some(c) => src.paint_of(src.color_or(name, i, theme), opacity, i) == Some(
                Paint { color: c, opacity: src.number_at(opacity, i) },
            ),
            None => src.paint_of(src.color_or(name, i, theme), opacity, i) is None,
        },
{
}

/// A row lies where its scale puts it, and without a scale where its own number
/// says. Only a scale gives it room.
pub proof fn rows_lie_where_the_data_put_them(
    src: Source,
    name: Seq<char>,
    i: int,
    band: Num,
    env: Env,
)
    requires
        is_put(src, name, i),
    ensures
        value(src.position(name, i, band), env) == put(src, name, i, band.value()),
        src.band_width(name, i).value() == room(src, name, i),
{
    if is_scaled(src, name) {
        let p = src.positions[name]@[i];
        let l = Expr::Lit(band);
        let b = Expr::Lit(p.band);
        assert(value(l, env) == band.value() && value(b, env) == p.band.value());
        assert(value(crate::expr::e_mul(l, b), env) == band.value() * p.band.value());
        assert(value(Expr::Lit(p.center), env) == p.center.value());
    } else {
        zero_is_nought();
    }
}

/// The pattern of nought stands for nought.
pub proof fn zero_is_nought()
    ensures
        (Num { bits: 0 }).value() == 0real,
        (Num { bits: 0 }).finite(),
{
    let z = Num { bits: 0 };
    z.sign_of_value();
}

/// The patterns of one and of one half stand for one and for one half.
pub proof fn one_is_one()
    ensures
        (Num { bits: 0x3FF0_0000_0000_0000 }).value() == 1real,
        (Num { bits: 0x3FF0_0000_0000_0000 }).finite(),
        (Num { bits: 0x3FE0_0000_0000_0000 }).value() == 1real / 2real,
        (Num { bits: 0x3FE0_0000_0000_0000 }).finite(),
{
    let one = Num { bits: 0x3FF0_0000_0000_0000 };
    let half = Num { bits: 0x3FE0_0000_0000_0000 };
    assert(power_of_two(52) == 0x10_0000_0000_0000) by {
        reveal_with_fuel(power_of_two, 53);
    }
    two_to_reciprocal(52);
    two_to_step(-53);
    assert(one.exponent_field() == 1023 && one.fraction() == 0);
    assert(half.exponent_field() == 1022 && half.fraction() == 0);
    assert(one.exponent() == -52 && half.exponent() == -53);
    let p = 0x10_0000_0000_0000int as real;
    let a = two_to(-52);
    let b = two_to(-53);
    assert(a == 2real * b);
    assert(a * p == 1real);
    assert(p * a == 1real) by (nonlinear_arith)
        requires
            a * p == 1real,
    ;
    assert(p * b == 1real / 2real) by (nonlinear_arith)
        requires
            a == 2real * b,
            p * a == 1real,
    ;
}

/// A point on a Cartesian panel lies so far across it and so far up it.
pub proof fn cartesian_points_are_fractions_of_the_panel(a: Expr, b: Expr, env: Env)
    ensures
        ({
            let p = Projection::Cartesian.point_at(a, b);
            let x0 = (env.var)(Quantity::PanelX0);
            let x1 = (env.var)(Quantity::PanelX1);
            let y0 = (env.var)(Quantity::PanelY0);
            let y1 = (env.var)(Quantity::PanelY1);
            &&& value(p.x, env) == x0 + value(a, env) * (x1 - x0)
            &&& value(p.y, env) == y1 - value(b, env) * (y1 - y0)
        }),
{
    let w = crate::expr::e_panel_w();
    let h = crate::expr::e_panel_h();
    assert(value(Expr::Var(Quantity::PanelX0), env) == (env.var)(Quantity::PanelX0));
    assert(value(Expr::Var(Quantity::PanelX1), env) == (env.var)(Quantity::PanelX1));
    assert(value(Expr::Var(Quantity::PanelY0), env) == (env.var)(Quantity::PanelY0));
    assert(value(Expr::Var(Quantity::PanelY1), env) == (env.var)(Quantity::PanelY1));
    assert(value(w, env) == (env.var)(Quantity::PanelX1) - (env.var)(Quantity::PanelX0));
    assert(value(h, env) == (env.var)(Quantity::PanelY1) - (env.var)(Quantity::PanelY0));
    assert(value(crate::expr::e_mul(a, w), env) == value(a, env) * value(w, env));
    assert(value(crate::expr::e_mul(b, h), env) == value(b, env) * value(h, env));
}

/// Offsets move a point to the right and up, by points.
pub proof fn offsets_move_right_and_up(
    src: Source,
    p: Point,
    x_offset: Seq<char>,
    y_offset: Seq<char>,
    i: int,
    env: Env,
)
    ensures
        ({
            let q = moved(src, p, x_offset, y_offset, i);
            &&& value(q.x, env) == value(p.x, env) + px(says(src, x_offset, i, 0real), env)
            &&& value(q.y, env) == value(p.y, env) - px(says(src, y_offset, i, 0real), env)
        }),
{
    let dpi = (env.var)(Quantity::Dpi);
    assert(0real * dpi / 72real == 0real) by (nonlinear_arith);
    if let Some(n) = src.number_at(x_offset, i) {
        let e = Expr::Lit(n);
        points_in_pixels(e, env);
        assert(value(e, env) == n.value());
    }
    if let Some(n) = src.number_at(y_offset, i) {
        let e = Expr::Lit(n);
        points_in_pixels(e, env);
        assert(value(e, env) == n.value());
    }
}

/// A row lies, along either channel, where the data put it.
pub proof fn rows_lie_at_their_own_place(
    src: Source,
    x: Seq<char>,
    y: Seq<char>,
    x_band: Seq<char>,
    y_band: Seq<char>,
    i: int,
    env: Env,
)
    requires
        is_put(src, x, i),
        is_put(src, y, i),
    ensures
        ({
            let f = fractions_at(src, x, y, x_band, y_band, i);
            &&& value(f.a, env) == put(src, x, i, says(src, x_band, i, 0real))
            &&& value(f.b, env) == put(src, y, i, says(src, y_band, i, 0real))
        }),
{
    let zero = Num { bits: 0 };
    zero_is_nought();
    values_are_taken_for_what_they_are(src, x_band, i, zero);
    values_are_taken_for_what_they_are(src, y_band, i, zero);
    rows_lie_where_the_data_put_them(src, x, i, src.number_or(x_band, i, zero), env);
    rows_lie_where_the_data_put_them(src, y, i, src.number_or(y_band, i, zero), env);
}

/// Line ends and corners go by their names, and any other name leaves the default.
pub proof fn line_styles_go_by_name(s: String, cap: Cap, join: Join)
    ensures
        s@ == "butt"@ ==> cap_named(Some(s), cap) == Cap::Butt,
        s@ == "round"@ ==> cap_named(Some(s), cap) == Cap::Round,
        s@ == "square"@ ==> cap_named(Some(s), cap) == Cap::Square,
        s@ != "butt"@ && s@ != "round"@ && s@ != "square"@ ==> cap_named(Some(s), cap) == cap,
        cap_named(None, cap) == cap,
        s@ == "miter"@ ==> join_named(Some(s), join) == Join::Miter,
        s@ == "round"@ ==> join_named(Some(s), join) == Join::Round,
        s@ == "bevel"@ ==> join_named(Some(s), join) == Join::Bevel,
        s@ != "miter"@ && s@ != "round"@ && s@ != "bevel"@ ==> join_named(Some(s), join) == join,
        join_named(None, join) == join,
{
    reveal_strlit("butt");
    reveal_strlit("round");
    reveal_strlit("square");
    reveal_strlit("miter");
    reveal_strlit("bevel");
    assert("round"@[0] != "miter"@[0]);
    assert("round"@[0] != "bevel"@[0]);
    assert("bevel"@[0] != "miter"@[0]);
    assert("butt"@.len() != "round"@.len() && "butt"@.len() != "square"@.len());
    assert("round"@.len() != "square"@.len());
}

/// Lines are placed by the names for it, and at the start without one.
pub proof fn line_placements_go_by_name(s: String)
    ensures
        s@ == "center"@ || s@ == "centre"@ || s@ == "middle"@ ==> align_named(Some(s))
            == HAlign::Center,
        s@ == "end"@ ==> align_named(Some(s)) == HAlign::End,
        s@ == "justify"@ || s@ == "justified"@ ==> align_named(Some(s)) == HAlign::Justify,
        s@ == "start"@ ==> align_named(Some(s)) == HAlign::Start,
        align_named(None) == HAlign::Start,
{
    reveal_strlit("center");
    reveal_strlit("centre");
    reveal_strlit("middle");
    reveal_strlit("end");
    reveal_strlit("justify");
    reveal_strlit("justified");
    reveal_strlit("start");
    assert("center"@.len() == 6 && "centre"@.len() == 6 && "middle"@.len() == 6);
    assert("end"@.len() == 3 && "start"@.len() == 5);
    assert("justify"@.len() == 7 && "justified"@.len() == 9);
}

/// A font slants where the channel says so, by truth or by name.
pub proof fn italics_are_asked_for(s: String)
    ensures
        italic_in(Some(Value::Bool(true))),
        !italic_in(Some(Value::Bool(false))),
        !italic_in(None),
        s@ == "italic"@ ==> italic_in(Some(Value::String(s))),
        s@ == "oblique"@ ==> italic_in(Some(Value::String(s))),
        s@ == "normal"@ ==> !italic_in(Some(Value::String(s))),
{
    reveal_strlit("italic");
    reveal_strlit("oblique");
    reveal_strlit("normal");
    assert("italic"@[0] != "normal"@[0]);
    assert("oblique"@.len() != "normal"@.len());
}

/// Without an id a mark lets hits through, and so does one whose number is no id.
pub proof fn marks_without_id_let_hits_through(v: Num)
    ensures
        pick_for(None) == PickId::Skip,
        (forall|k: nat| !v.is_pick_index(k)) ==> pick_for(Some(v)) == PickId::Skip,
{
}

/// What a channel holds in one row has no say in another: sources that agree on a
/// row put it in the same place.
pub open spec fn agree_on_row(a: Source, b: Source, i: int) -> bool {
    &&& forall|name: Seq<char>| #[trigger] a.value_at(name, i) == b.value_at(name, i)
    &&& forall|name: Seq<char>, band: Num| #[trigger]
        a.position(name, i, band) == b.position(name, i, band)
    &&& forall|name: Seq<char>| #[trigger] a.band_width(name, i) == b.band_width(name, i)
}

} // verus!
