//! The kinds of scope that a pick path is made of.

use vstd::prelude::*;

verus! {

/// A whole composition, named by its id.
pub const COMPOSITION: &'static str = "composition";

/// One plot, named by its patch and numbered within it.
pub const PLOT: &'static str = "plot";

/// A region of the anatomy, named by its slot.
pub const REGION: &'static str = "region";

/// One axis, named by its scale and numbered by its id.
pub const AXIS: &'static str = "axis";

/// One legend block, named by its domain scale.
pub const LEGEND: &'static str = "legend";

/// One geom, numbered by its id.
pub const GEOM: &'static str = "geom";

/// A piece of chrome.
pub const PART: &'static str = "part";

/// An ordinal within a part: a break, a legend row, a key.
pub const ITEM: &'static str = "item";

/// The kinds are all different.
pub proof fn kinds_differ()
    ensures
        COMPOSITION@ != PLOT@,
        COMPOSITION@ != REGION@,
        COMPOSITION@ != AXIS@,
        COMPOSITION@ != LEGEND@,
        COMPOSITION@ != GEOM@,
        COMPOSITION@ != PART@,
        COMPOSITION@ != ITEM@,
        PLOT@ != REGION@,
        PLOT@ != AXIS@,
        PLOT@ != LEGEND@,
        PLOT@ != GEOM@,
        PLOT@ != PART@,
        PLOT@ != ITEM@,
        REGION@ != AXIS@,
        REGION@ != LEGEND@,
        REGION@ != GEOM@,
        REGION@ != PART@,
        REGION@ != ITEM@,
        AXIS@ != LEGEND@,
        AXIS@ != GEOM@,
        AXIS@ != PART@,
        AXIS@ != ITEM@,
        LEGEND@ != GEOM@,
        LEGEND@ != PART@,
        LEGEND@ != ITEM@,
        GEOM@ != PART@,
        GEOM@ != ITEM@,
        PART@ != ITEM@,
{
    reveal_strlit("composition");
    reveal_strlit("plot");
    reveal_strlit("region");
    reveal_strlit("axis");
    reveal_strlit("legend");
    reveal_strlit("geom");
    reveal_strlit("part");
    reveal_strlit("item");
    assert(PLOT@[0] == 'p' && PLOT@[1] == 'l');
    assert(REGION@[0] == 'r' && REGION@[1] == 'e');
    assert(AXIS@[0] == 'a' && AXIS@[1] == 'x');
    assert(LEGEND@[0] == 'l' && LEGEND@[1] == 'e');
    assert(GEOM@[0] == 'g' && GEOM@[1] == 'e');
    assert(PART@[0] == 'p' && PART@[1] == 'a');
    assert(ITEM@[0] == 'i' && ITEM@[1] == 't');
    assert(COMPOSITION@[0] == 'c');
}

} // verus!
