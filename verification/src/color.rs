//! Colour: the integral parts of palette assignment and mixture analysis.

pub mod mixture;
pub mod palette;
pub mod sampler;
