//! A verified engine core for palette-based bitmap tracing.

pub mod aa;
pub mod checked;
pub mod cli;
pub mod color;
pub mod config;
pub mod control;
pub mod determinism;
pub mod digest;
pub mod error;
pub mod image;
pub mod ir;
pub mod labels;
pub mod limits;
pub mod netpbm;
pub mod render;
pub mod report;
pub mod text;
