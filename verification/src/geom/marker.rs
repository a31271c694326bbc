//! Markers at the ends of lines.

use vstd::prelude::*;

use crate::expr::{e_add, e_half, e_int, e_max, e_mul, e_px, Expr, Quantity};
use crate::num::Num;
use crate::resolve::{Bound, Source};
use crate::scene::Paint;

verus! {

/// A marker at an end of a line.
#[derive(Debug)]
pub struct EndMarker {
    /// The name of its shape.
    pub name: String,
    /// Its size, in pixels.
    pub size: Expr,
    /// Whether it points the other way.
    pub invert: bool,
    /// What it is filled with.
    pub fill: Paint,
    /// How wide its outline is, in pixels.
    pub outline: Expr,
}

/// The name of the marker at an end; empty where there is none.
pub open spec fn marker_name(src: Source, name: Seq<char>, i: int) -> Option<String> {
    match src.string_at(name, i) {
        Some(s) => if s@.len() == 0 {
            None
        } else {
            Some(s)
        },
        None => None,
    }
}

/// The size of a marker, in points: three line widths where nothing else is
/// said.
pub open spec fn marker_size(src: Source, size: Seq<char>, i: int, linewidth: Num) -> Expr {
    match src.number_at(size, i) {
        Some(n) => Expr::Lit(n),
        None => e_mul(e_int(3), Expr::Lit(linewidth)),
    }
}

/// How wide the outline of an end marker is: as wide as the line, and half a
/// point at least.
pub open spec fn marker_outline(linewidth: Num) -> Expr {
    e_max(e_px(Expr::Lit(linewidth)), e_px(e_half()))
}

/// What an end marker is filled with: its own fill, else the row's, else its
/// stroke.
pub open spec fn marker_paint(src: Source, fill: Seq<char>, i: int, row: Paint) -> Paint {
    match src.color_at(fill, i) {
        Some(color) => Paint { color, opacity: None },
        None => row,
    }
}

/// The marker at an end of row `i`.
pub open spec fn end_marker(
    src: Source,
    name: Seq<char>,
    size: Seq<char>,
    fill: Seq<char>,
    invert: Seq<char>,
    i: int,
    linewidth: Num,
    row_fill: Paint,
) -> Option<EndMarker> {
    match marker_name(src, name, i) {
        Some(name) => Some(
            EndMarker {
                name,
                size: e_px(marker_size(src, size, i, linewidth)),
                invert: src.bool_or(invert, i, false),
                fill: marker_paint(src, fill, i, row_fill),
                outline: marker_outline(linewidth),
            },
        ),
        None => None,
    }
}

/// What is trimmed off an end, in points: what the channel asks for, and what
/// the marker takes up where there is one.
pub open spec fn trimmed(
    src: Source,
    clip: Seq<char>,
    name: Seq<char>,
    size: Seq<char>,
    reach: Quantity,
    i: int,
    linewidth: Num,
) -> Expr {
    let asked = Expr::Lit(src.number_or(clip, i, Num { bits: 0 }));
    if marker_name(src, name, i) is Some {
        e_add(asked, e_mul(Expr::Var(reach), marker_size(src, size, i, linewidth)))
    } else {
        asked
    }
}

/// The size of a marker, in points.
pub fn size_of_marker(src: &Bound, size: &str, i: usize, linewidth: Num) -> (r: Expr)
    ensures
        r == marker_size(src@, size@, i as int, linewidth),
{
    match src.number_at(size, i) {
        Some(n) => Expr::Lit(n),
        None => Expr::Ratio(3, 1).times(Expr::Lit(linewidth)),
    }
}

/// What an end marker is filled with.
pub fn paint_of_marker(src: &Bound, fill: &str, i: usize, row: Paint) -> (r: Paint)
    ensures
        r == marker_paint(src@, fill@, i as int, row),
{
    match src.color_at(fill, i) {
        Some(color) => Paint { color, opacity: None },
        None => row,
    }
}

/// The marker at an end of row `i`.
pub fn marker_at_end(
    src: &Bound,
    name: &str,
    size: &str,
    fill: &str,
    invert: &str,
    i: usize,
    linewidth: Num,
    row_fill: Paint,
) -> (r: Option<EndMarker>)
    ensures
        r == end_marker(
            src@,
            name@,
            size@,
            fill@,
            invert@,
            i as int,
            linewidth,
            row_fill,
        ),
{
    match src.string_at(name, i) {
        Some(s) => if s.as_str().is_empty() {
            None
        } else {
            Some(
                EndMarker {
                    name: s,
                    size: size_of_marker(src, size, i, linewidth).in_px(),
                    invert: src.bool_or(invert, i, false),
                    fill: paint_of_marker(src, fill, i, row_fill),
                    outline: Expr::Lit(linewidth).in_px().at_least(Expr::Ratio(1, 2).in_px()),
                },
            )
        },
        None => None,
    }
}

/// What is trimmed off an end, in points.
pub fn trimmed_off(
    src: &Bound,
    clip: &str,
    name: &str,
    size: &str,
    reach: Quantity,
    i: usize,
    linewidth: Num,
) -> (r: Expr)
    ensures
        r == trimmed(src@, clip@, name@, size@, reach, i as int, linewidth),
{
    let asked: Num = src.number_or(clip, i, Num { bits: 0 });
    let marked = match src.string_at(name, i) {
        Some(s) => !s.as_str().is_empty(),
        None => false,
    };
    if marked {
        Expr::Lit(asked).plus(Expr::Var(reach).times(size_of_marker(src, size, i, linewidth)))
    } else {
        Expr::Lit(asked)
    }
}

} // verus!
