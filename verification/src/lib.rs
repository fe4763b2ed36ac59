//! Step sequencer, sample slicing and control logic of a sixteen-step
//! drum machine and sample slicer.

pub mod note;
pub mod shared;
pub mod engine;
pub mod slicing;
pub mod label;
pub mod controls;
pub mod laws;
pub mod noise;
pub mod waveform;

pub use note::Note;
pub use shared::SharedState;
