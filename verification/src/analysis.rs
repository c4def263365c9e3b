//! The analyzed tune, as far as the exporters read it.

pub mod frame;
pub mod patch;
pub mod program;
