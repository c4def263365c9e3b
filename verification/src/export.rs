//! Exporters.

pub mod lines;
pub mod synth;
pub mod text;
