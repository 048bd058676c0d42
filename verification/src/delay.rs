//! The delay capability: blocking the caller for a requested time.

use vstd::prelude::*;

verus! {

/// A source of blocking delays, requested in nanoseconds.
///
/// A recording provider keeps the sequence of delays it was asked for, so
/// contracts can speak of exactly which delays a transaction requested; a
/// placeholder records nothing and returns at once.
pub trait DelayProvider: Sized {
    /// The delays requested so far, in nanoseconds, in order.
    spec fn delays(&self) -> Seq<u32>;

    /// Whether this provider keeps its delay log.
    spec fn recording(&self) -> bool;

    /// Block the caller for at least `ns` nanoseconds.
    fn delay_ns(&mut self, ns: u32)
        ensures
            final(self).recording() == old(self).recording(),
            old(self).recording() ==> final(self).delays() == old(self).delays().push(ns),
            !old(self).recording() ==> final(self).delays() == old(self).delays(),
    ;
}

/// A placeholder for an absent delay source: every delay returns at once.
pub struct NoDelay;

impl DelayProvider for NoDelay {
    open spec fn delays(&self) -> Seq<u32> {
        Seq::empty()
    }

    open spec fn recording(&self) -> bool {
        false
    }

    fn delay_ns(&mut self, ns: u32) {
    }
}

} // verus!
