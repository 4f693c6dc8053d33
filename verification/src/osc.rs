//! The waveforms an oscillator can produce.

use vstd::prelude::*;

verus! {

/// The shape of one period of an oscillator's output.
#[derive(Eq, PartialEq, Structural, Debug, Copy, Clone)]
pub enum Shape {
    Sine,
    Saw,
    Square,
    Triangle,
    Noise,
}

} // verus!
