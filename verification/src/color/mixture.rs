//! The outcomes of two-colour mixture analysis that carry no numbers.

use vstd::prelude::*;

verus! {

/// Why a mixture estimate could not be trusted.
#[derive(Debug, Clone, Copy, PartialEq, Eq, Structural)]
pub enum MixtureRejection {
    /// The two endpoint colours are too close to separate, so any coverage
    /// would be noise divided by noise.
    IllConditionedColors,
    /// The observation is not on the segment between the endpoints, so it is
    /// not a two-colour mixture of them.
    NotTwoColorMixture,
}

/// Which compositing hypothesis explained an observation.
#[derive(Debug, Clone, Copy, PartialEq, Eq, Structural)]
pub enum CompositeSpace {
    /// The source composited in linear light.
    LinearLight,
    /// The source composited on transfer-encoded sRGB values.
    EncodedSrgb,
}

impl CompositeSpace {
    /// The report identifier of each hypothesis.
    pub open spec fn name(self) -> &'static str {
        match self {
            CompositeSpace::LinearLight => "linear-light",
            CompositeSpace::EncodedSrgb => "encoded-srgb",
        }
    }

    /// Stable identifier for the report.
    pub fn as_str(self) -> (s: &'static str)
        ensures
            s == self.name(),
    {
        match self {
            CompositeSpace::LinearLight => "linear-light",
            CompositeSpace::EncodedSrgb => "encoded-srgb",
        }
    }
}

} // verus!
