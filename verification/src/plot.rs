//! How the history of a widget key is plotted.

use vstd::prelude::*;

verus! {

/// The kind of plot for the history of a value.
#[derive(Clone, Copy, Debug, PartialEq, Eq)]
pub enum PlotType {
    /// Consecutive values are joined by straight lines.
    LinePlot,
    /// A value holds until the next one arrives.
    StepPlot,
}

} // verus!
