//! Verified core of a small modulation synthesizer.
//!
//! The library holds the integer side of the synthesis pipeline: the step
//! sequencer that retunes a generator on beat boundaries, the index math of
//! the square and saw waveforms, validation of a declarative graph
//! description, and the framing and underrun policy of the sample channel.
//! Sample values and frequencies are carried as IEEE-754 bit patterns (`u32`).
pub mod stepper;
pub mod wave;
pub mod config;
pub mod channel;
