//! Abstract cost of one unit of work, charged by stages as they run. The
//! numbers are relative and deliberately coarse.

use vstd::prelude::*;

verus! {

/// One pixel visited in a linear scan.
pub const PIXEL: u64 = 1;

/// One pixel-graph edge relaxed in the watershed.
pub const EDGE: u64 = 2;

/// One priority-queue pop in region merging.
pub const MERGE_POP: u64 = 8;

/// One elementary boundary segment emitted.
pub const BOUNDARY_SEGMENT: u64 = 4;

/// One candidate curve fitted and validated.
pub const CURVE_CANDIDATE: u64 = 32;

/// One coverage observation inverted.
pub const COVERAGE_SAMPLE: u64 = 8;

} // verus!
