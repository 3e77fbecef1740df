//! The intermediate representation: paint, shared topology, and the output
//! document's integral parts.

pub mod document;
pub mod geom;
pub mod paint;
pub mod topology;
