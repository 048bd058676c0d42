//! Clock polarity and phase.

use vstd::prelude::*;

verus! {

/// The clock phase: on which clock transition data is captured.
#[derive(Copy, Clone, Debug, PartialEq, Eq, Structural)]
pub enum Phase {
    /// Data is captured on the first clock transition.
    CaptureOnFirstTransition,
    /// Data is captured on the second clock transition.
    CaptureOnSecondTransition,
}

/// The clock polarity: the level of the clock line while the bus is idle.
#[derive(Copy, Clone, Debug, PartialEq, Eq, Structural)]
pub enum Polarity {
    /// The clock idles low.
    IdleLow,
    /// The clock idles high.
    IdleHigh,
}

/// The signal mode of the bus: polarity and phase together. Fixed at bus
/// construction and immutable thereafter.
#[derive(Copy, Clone, Debug, PartialEq, Eq, Structural)]
pub struct Mode {
    /// The clock polarity.
    pub polarity: Polarity,
    /// The clock phase.
    pub phase: Phase,
}

} // verus!
