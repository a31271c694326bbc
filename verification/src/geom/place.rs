//! Where a row lies.

use vstd::prelude::*;

use crate::expr::{e_add, e_px, e_sub, Expr};
use crate::num::Num;
use crate::projection::Fractions;
use crate::resolve::{Bound, Source};
use crate::scene::Point;

verus! {

/// The names of the channels that place a point.
pub struct EndNames {
    /// Across.
    pub x: &'static str,
    /// Up.
    pub y: &'static str,
    /// Moved across, in bands.
    pub x_band: &'static str,
    /// Moved up, in bands.
    pub y_band: &'static str,
    /// Moved across, in points.
    pub x_offset: &'static str,
    /// Moved up, in points.
    pub y_offset: &'static str,
}

/// Where a row lies, as fractions of the panel.
pub open spec fn fractions_at(
    src: Source,
    x: Seq<char>,
    y: Seq<char>,
    x_band: Seq<char>,
    y_band: Seq<char>,
    i: int,
) -> Fractions {
    Fractions {
        a: src.position(x, i, src.number_or(x_band, i, Num { bits: 0 })),
        b: src.position(y, i, src.number_or(y_band, i, Num { bits: 0 })),
    }
}

/// A point moved by offsets in points: to the right, and up.
pub open spec fn moved(src: Source, p: Point, x_offset: Seq<char>, y_offset: Seq<char>, i: int) -> Point {
    Point {
        x: match src.number_at(x_offset, i) {
            Some(n) => e_add(p.x, e_px(Expr::Lit(n))),
            None => p.x,
        },
        y: match src.number_at(y_offset, i) {
            Some(n) => e_sub(p.y, e_px(Expr::Lit(n))),
            None => p.y,
        },
    }
}

/// Where a row lies, as fractions of the panel.
pub fn fractions_of(src: &Bound, names: &EndNames, i: usize) -> (r: Fractions)
    requires
        src@.places_rows(names.x@),
        src@.places_rows(names.y@),
    ensures
        r == fractions_at(src@, names.x@, names.y@, names.x_band@, names.y_band@, i as int),
{
    let x_band: Num = src.number_or(names.x_band, i, Num { bits: 0 });
    let y_band: Num = src.number_or(names.y_band, i, Num { bits: 0 });
    Fractions { a: src.position(names.x, i, x_band), b: src.position(names.y, i, y_band) }
}

/// A point moved by offsets in points: to the right, and up.
pub fn offset_point(src: &Bound, p: Point, names: &EndNames, i: usize) -> (r: Point)
    ensures
        r == moved(src@, p, names.x_offset@, names.y_offset@, i as int),
{
    let x = match src.number_at(names.x_offset, i) {
        Some(n) => p.x.plus(Expr::Lit(n).in_px()),
        None => p.x,
    };
    let y = match src.number_at(names.y_offset, i) {
        Some(n) => p.y.minus(Expr::Lit(n).in_px()),
        None => p.y,
    };
    Point { x, y }
}

/// The channels that place a point.
pub fn start_names() -> (r: EndNames)
    ensures
        r.x@ == "x"@,
        r.y@ == "y"@,
        r.x_band@ == "x_band"@,
        r.y_band@ == "y_band"@,
        r.x_offset@ == "x_offset"@,
        r.y_offset@ == "y_offset"@,
{
    EndNames {
        x: "x",
        y: "y",
        x_band: "x_band",
        y_band: "y_band",
        x_offset: "x_offset",
        y_offset: "y_offset",
    }
}

/// The channels that place a second point.
pub fn end_names() -> (r: EndNames)
    ensures
        r.x@ == "x2"@,
        r.y@ == "y2"@,
        r.x_band@ == "x2_band"@,
        r.y_band@ == "y2_band"@,
        r.x_offset@ == "x2_offset"@,
        r.y_offset@ == "y2_offset"@,
{
    EndNames {
        x: "x2",
        y: "y2",
        x_band: "x2_band",
        y_band: "y2_band",
        x_offset: "x2_offset",
        y_offset: "y2_offset",
    }
}

} // verus!
