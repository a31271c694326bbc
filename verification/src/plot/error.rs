//! Ways in which a plot can be set up wrongly.

use vstd::prelude::*;

use crate::plot::chrome::AxisPlacement;

verus! {

/// A kind of projection.
#[derive(Clone, Copy, Debug, PartialEq, Eq, Structural)]
pub enum ProjectionKind {
    /// Across and up.
    Cartesian,
    /// Round and outward.
    Polar,
}

/// Ways in which a plot can be set up wrongly.
#[derive(Debug)]
pub enum PlotError {
    /// The composition has no patch with this id.
    UnknownPatch(String),
    /// An axis does not go with the plot's projection.
    AxisProjectionMismatch {
        /// Where the axis would stand.
        placement: AxisPlacement,
        /// The projection.
        projection: ProjectionKind,
    },
    /// A legend is to hang in a panel where there is none.
    InPanelLegendUnsupported,
}

/// What an error says. `first` and `second` are what it holds, written out for
/// debugging: the id of the patch, or the placement and the projection.
pub open spec fn plot_error_text(e: PlotError, first: Seq<char>, second: Seq<char>) -> Seq<char> {
    match e {
        PlotError::UnknownPatch(_) => "no patch with id "@ + first + " in the composition"@,
        PlotError::AxisProjectionMismatch { .. } => "axis placement "@ + first
            + " is incompatible with projection "@ + second,
        PlotError::InPanelLegendUnsupported =>
        "an in-panel legend anchors to a panel rect, which this target doesn't have"@,
    }
}

impl PlotError {
    /// What the error says. `first` and `second` are what it holds, written out
    /// for debugging: the id of the patch, or the placement and the projection.
    pub fn message(&self, first: &str, second: &str) -> (r: String)
        ensures
            r@ == plot_error_text(*self, first@, second@),
    {
        match self {
            PlotError::UnknownPatch(_) => {
                let mut s = "no patch with id ".to_owned();
                s.append(first);
                s.append(" in the composition");
                s
            },
            PlotError::AxisProjectionMismatch { .. } => {
                let mut s = "axis placement ".to_owned();
                s.append(first);
                s.append(" is incompatible with projection ");
                s.append(second);
                s
            },
            PlotError::InPanelLegendUnsupported =>
            "an in-panel legend anchors to a panel rect, which this target doesn't have".to_owned(),
        }
    }
}

} // verus!
