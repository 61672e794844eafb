//! The float-free core of a real-time additive synthesizer.
//!
//! The crate holds the patch model (curves, waves, timbres) and its stored
//! form, the noise hash, the time base, the loop that fills an output buffer
//! frame by frame, and the life cycle of the output stream. Levels and
//! frequencies travel through it as IEEE-754 single-precision bit patterns
//! (`u32`); the arithmetic on them belongs to the caller.

pub mod curve;
pub mod waveform;
pub mod wave;
pub mod timbre;
pub mod document;
pub mod clock;
pub mod frames;
pub mod lifecycle;
pub mod playback;
