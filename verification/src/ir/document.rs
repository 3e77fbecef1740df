//! The output document's fill rules and provenance. The document returns
//! structured data, never path strings a renderer would have to parse.

use vstd::prelude::*;

verus! {

/// How a face's outline is filled.
#[derive(Debug, Clone, Copy, PartialEq, Eq, Structural)]
pub enum FillRule {
    /// Non-zero winding.
    NonZero,
    /// Even-odd.
    EvenOdd,
}

/// Where a document came from: engine, version, profile and semantic digest.
/// Never paths, usernames, or timestamps.
#[derive(Debug, Clone, PartialEq, Eq)]
pub struct DocumentProvenance {
    /// Engine name.
    pub engine: String,
    /// Engine version.
    pub version: String,
    /// Profile identifier.
    pub profile: String,
    /// Semantic digest, `pte-semantic-v1-blake3:<hex>`.
    pub semantic_digest: String,
}

} // verus!
