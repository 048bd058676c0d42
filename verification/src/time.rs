//! Frequency values.

use vstd::prelude::*;

verus! {

/// A frequency in hertz.
#[derive(Clone, Copy, Debug, PartialEq, Eq, Structural)]
pub struct Hertz(pub u32);

} // verus!
