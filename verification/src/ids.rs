//! Handles that a plot gives out.

use vstd::prelude::*;

verus! {

/// The handle of a geom on a plot.
#[derive(Clone, Copy, Debug, PartialEq, Eq, Structural, Hash)]
pub struct GeomId(pub u32);

impl GeomId {
    /// The handle with this number.
    pub fn new(raw: u32) -> (r: GeomId)
        ensures
            r == GeomId(raw),
    {
        GeomId(raw)
    }

    /// The handle's number. Useful only as a key, and not comparable across
    /// plots.
    pub fn raw(self) -> (r: u32)
        ensures
            r == self.0,
    {
        self.0
    }
}

/// The handle of an axis on a plot.
#[derive(Clone, Copy, Debug, PartialEq, Eq, Structural, Hash)]
pub struct AxisId(pub u32);

impl AxisId {
    /// The handle with this number.
    pub fn new(raw: u32) -> (r: AxisId)
        ensures
            r == AxisId(raw),
    {
        AxisId(raw)
    }

    /// The handle's number.
    pub fn raw(self) -> (r: u32)
        ensures
            r == self.0,
    {
        self.0
    }
}

/// The handle of a legend on a plot.
#[derive(Clone, Copy, Debug, PartialEq, Eq, Structural, Hash)]
pub struct LegendId(pub u32);

impl LegendId {
    /// The handle with this number.
    pub fn new(raw: u32) -> (r: LegendId)
        ensures
            r == LegendId(raw),
    {
        LegendId(raw)
    }

    /// The handle's number.
    pub fn raw(self) -> (r: u32)
        ensures
            r == self.0,
    {
        self.0
    }
}

} // verus!
