//! The control core of a polyphonic synthesizer.
//!
//! Everything here is counted in whole samples and whole MIDI numbers: the
//! envelope clocks, the voice pool and its allocation policy, the delay-line
//! and sample cursors, and the demultiplexing of MIDI events. A renderer
//! built on top of it owns the signal path and asks this crate, once per
//! sample, what each voice has to do next.

pub mod effects;
pub mod env;
pub mod filter;
pub mod math;
pub mod midi;
pub mod osc;
pub mod sampler;
pub mod synth;
