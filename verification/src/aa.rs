//! Antialias boundary reconstruction: what it did, for the report.

use vstd::prelude::*;

verus! {

/// What reconstruction did, for the report and the status document.
#[derive(Debug, Clone, Copy, PartialEq, Eq, Default)]
pub struct ReconstructionStats {
    /// Shared edges whose position came from inverted coverage.
    pub reconstructed_edges: u32,
    /// Shared edges that were offered coverage evidence and rejected it.
    pub low_confidence_edges: u32,
    /// Shared edges left on the pixel grid because no evidence was offered.
    pub crisp_edges: u32,
    /// Boundary samples that received a coverage constraint.
    pub constrained_samples: u32,
    /// Boundary samples with no usable constraint.
    pub unconstrained_samples: u32,
}

} // verus!
