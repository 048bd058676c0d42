//! The clock and reset collaborator, as the driver consumes it.

use vstd::prelude::*;
use crate::time::Hertz;

verus! {

/// The frequencies of the clock tree that feed the bus peripheral.
#[derive(Clone, Copy, Debug, PartialEq, Eq, Structural)]
pub struct Clocks {
    /// The frequency of the peripheral bus clock.
    pub apb_clk: Hertz,
}

/// A handle on the clock and reset controller. The bus peripheral is
/// powered on and reset through it once, at construction.
#[derive(Clone, Copy, Debug, PartialEq, Eq, Structural)]
pub struct Rcc {
    /// The configured clock frequencies.
    pub clocks: Clocks,
}

} // verus!
