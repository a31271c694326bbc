//! How heavy labels are set.

use vstd::prelude::*;

use crate::geom::label::LabelPlan;
use crate::marks::MarkSlot;
use crate::num::{half, Num};
use crate::projection::Projection;
use crate::resolve::Source;
use crate::theme::{TextFitTheme, TextPathTheme, TextTheme};

verus! {

proof fn one_weight_is_nearest(n: Num, a: u16, b: u16)
    requires
        n.is_nearest_between(1, 1000, a),
        n.is_nearest_between(1, 1000, b),
    ensures
        a == b,
{
    if n.finite() && 1u16 as real + half() <= n.value() < 1000u16 as real - half() {
        assert((a as real) < b as real + 1real && (b as real) < a as real + 1real);
    }
}

proof fn one_weight_is_meant(n: Num, a: u16, b: u16)
    requires
        n.is_font_weight(a),
        n.is_font_weight(b),
    ensures
        a == b,
{
    if n.finite() && !n.whole() && 150real <= n.value() < 850real {
        assert((a as real) < b as real + 100real && (b as real) < a as real + 100real);
        assert(a < b + 100 && b < a + 100);
        assert(a % 100 == 0 && b % 100 == 0);
    }
}

/// Whether a weight is the one that a number asks for: the nearest whole one from
/// 1 to 1000.
pub open spec fn is_nearest_weight(n: Num, w: u16) -> bool {
    &&& n.finite()
    &&& 1 <= w <= 1000
    &&& w == 1 || w as real - 1real / 2real <= n.value()
    &&& w == 1000 || n.value() < w as real + 1real / 2real
}

/// Whether a weight is the one that a number asks for: that number, if it is a
/// whole one from 1 to 1000, and otherwise the nearest of the nine hundreds from
/// 100 to 900. Beyond 1 and 1000 it is these.
pub open spec fn is_asked_weight(n: Num, w: u16) -> bool {
    &&& n.finite()
    &&& {
        ||| n.value() == w as real && 1 <= w <= 1000
        ||| w == 1 && n.value() < 1real
        ||| w == 1000 && n.value() > 1000real
        ||| {
            &&& forall|k: int| !#[trigger] n.equals_integer(k)
            &&& 1real < n.value() < 1000real
            &&& w % 100 == 0 && 100 <= w <= 900
            &&& w == 100 || w as real - 50real <= n.value()
            &&& w == 900 || n.value() < w as real + 50real
        }
    }
}

/// A label at a point is as heavy as its row asks.
pub proof fn labels_are_as_heavy_as_asked(
    p: LabelPlan,
    src: Source,
    theme: TextTheme,
    projection: Projection,
    i: int,
    n: Num,
    w: u16,
)
    requires
        crate::geom::text::is_plan(p, src, theme, projection, i),
        src.number_at("weight"@, i) == Some(n),
        is_asked_weight(n, w),
    ensures
        p.label.style.weight == w,
{
    if n.value() == w as real {
        assert(n.equals_integer(w as int));
    }
    if n.whole() {
        let k = choose|k: int| #[trigger] n.equals_integer(k);
        assert(n.equals_integer(k));
    }
    assert(n.is_font_weight(w));
    one_weight_is_meant(n, w, p.label.style.weight);
}

/// A label in a rectangle is as heavy as its row asks.
pub proof fn fitted_labels_are_as_heavy_as_asked(
    p: crate::geom::text_fit::FitPlan,
    src: Source,
    theme: TextFitTheme,
    projection: Projection,
    i: int,
    n: Num,
    w: u16,
)
    requires
        crate::geom::text_fit::is_plan(p, src, theme, projection, i),
        src.number_at("weight"@, i) == Some(n),
        is_nearest_weight(n, w),
    ensures
        p.label.style.weight == w,
{
    assert(n.is_nearest_between(1, 1000, w));
    one_weight_is_nearest(n, w, p.label.style.weight);
}

/// A label along a curve is as heavy as the first row of its mark asks.
pub proof fn path_labels_are_as_heavy_as_asked(
    p: crate::geom::text_path::PathLabel,
    src: Source,
    theme: TextPathTheme,
    projection: Projection,
    mark: MarkSlot,
    n: Num,
    w: u16,
)
    requires
        crate::geom::text_path::is_plan(p, src, theme, projection, mark),
        src.number_at("weight"@, mark.first_row as int) == Some(n),
        is_nearest_weight(n, w),
    ensures
        p.label.style.weight == w,
{
    assert(n.is_nearest_between(1, 1000, w));
    one_weight_is_nearest(n, w, p.label.style.weight);
}

} // verus!
