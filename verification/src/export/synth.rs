//! Export as a synthesizer project.

pub mod articulation;
pub mod census;
pub mod cutoff;
pub mod effects;
pub mod emission;
pub mod enhance;
pub mod envelope;
pub mod exported;
pub mod fidelity;
pub mod fraction;
pub mod grouping;
pub mod instruments;
pub mod lowering;
pub mod measures;
pub mod modern;
pub mod naming;
pub mod notes;
pub mod options;
pub mod oscillator;
pub mod ownership;
pub mod pitch;
pub mod planning;
pub mod project;
pub mod routing;
pub mod song;
pub mod styling;
pub mod sorting;
pub mod tempo;
pub mod timbre;
pub mod tracks;
