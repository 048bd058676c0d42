//! The chip-select capability: an output line asserted around a transaction.

use vstd::prelude::*;

verus! {

/// An output line able to drive the chip-select signal. Low asserts the
/// line (selects the device); high deasserts it.
///
/// A recording line keeps the history of levels it was driven to, so
/// contracts can speak of when the device was selected; a placeholder
/// records nothing and never fails.
pub trait ChipSelectPin: Sized {
    /// The levels the line was driven to, in order: `false` for low
    /// (asserted), `true` for high (deasserted).
    spec fn history(&self) -> Seq<bool>;

    /// Whether this line keeps its history.
    spec fn recording(&self) -> bool;

    /// Drive the line low, asserting chip select.
    fn set_low(&mut self) -> (r: Result<(), ()>)
        ensures
            final(self).recording() == old(self).recording(),
            old(self).recording() && r is Ok ==> final(self).history() == old(
                self,
            ).history().push(false),
            old(self).recording() && r is Err ==> final(self).history() == old(self).history(),
            !old(self).recording() ==> r is Ok && final(self).history() == old(self).history(),
    ;

    /// Drive the line high, deasserting chip select.
    fn set_high(&mut self) -> (r: Result<(), ()>)
        ensures
            final(self).recording() == old(self).recording(),
            old(self).recording() && r is Ok ==> final(self).history() == old(
                self,
            ).history().push(true),
            old(self).recording() && r is Err ==> final(self).history() == old(self).history(),
            !old(self).recording() ==> r is Ok && final(self).history() == old(self).history(),
    ;
}

/// A placeholder for an absent chip-select line. Both operations succeed
/// and perform no hardware action.
pub struct NoCS;

impl ChipSelectPin for NoCS {
    open spec fn history(&self) -> Seq<bool> {
        Seq::empty()
    }

    open spec fn recording(&self) -> bool {
        false
    }

    fn set_low(&mut self) -> (r: Result<(), ()>) {
        Ok(())
    }

    fn set_high(&mut self) -> (r: Result<(), ()>) {
        Ok(())
    }
}

} // verus!
