//! The responses a voice's filter can be switched between.

use vstd::prelude::*;

verus! {

/// Which part of the spectrum the filter lets through.
#[derive(Eq, PartialEq, Structural, Debug, Copy, Clone)]
pub enum Mode {
    Lowpass,
    Highpass,
    Bandpass,
}

} // verus!
