//! Pin capabilities: switching physical lines into the bus's alternate
//! function and back to an idle state.
//!
//! Each pin trait carries two pieces of abstract state: whether the
//! capability is a real line at all (a placeholder is not), and whether the
//! line currently sits in the bus's alternate function. `setup` switches
//! every bound line in; `release` switches every line out and returns the
//! capability. A placeholder is never bound, performs no hardware action
//! and never enters the bus function.

use vstd::prelude::*;

verus! {

/// A line that can serve as the bus clock for the controller `SPI`.
pub trait PinSck<SPI>: Sized {
    /// Whether this is a real line rather than a placeholder.
    spec fn is_bound(&self) -> bool;

    /// Whether the line sits in the bus's alternate function.
    spec fn in_bus_function(&self) -> bool;

    /// Switch a bound line into the bus's alternate function.
    fn setup(&mut self)
        ensures
            final(self).is_bound() == old(self).is_bound(),
            old(self).is_bound() ==> final(self).in_bus_function(),
            !old(self).is_bound() ==> !final(self).in_bus_function(),
    ;

    /// Switch the line back to an idle state and return it.
    fn release(self) -> (r: Self)
        ensures
            r.is_bound() == self.is_bound(),
            !r.in_bus_function(),
    ;
}

/// A line that can serve as master-in slave-out for the controller `SPI`.
pub trait PinMiso<SPI>: Sized {
    /// Whether this is a real line rather than a placeholder.
    spec fn is_bound(&self) -> bool;

    /// Whether the line sits in the bus's alternate function.
    spec fn in_bus_function(&self) -> bool;

    /// Switch a bound line into the bus's alternate function.
    fn setup(&mut self)
        ensures
            final(self).is_bound() == old(self).is_bound(),
            old(self).is_bound() ==> final(self).in_bus_function(),
            !old(self).is_bound() ==> !final(self).in_bus_function(),
    ;

    /// Switch the line back to an idle state and return it.
    fn release(self) -> (r: Self)
        ensures
            r.is_bound() == self.is_bound(),
            !r.in_bus_function(),
    ;
}

/// A line that can serve as master-out slave-in for the controller `SPI`.
pub trait PinMosi<SPI>: Sized {
    /// Whether this is a real line rather than a placeholder.
    spec fn is_bound(&self) -> bool;

    /// Whether the line sits in the bus's alternate function.
    spec fn in_bus_function(&self) -> bool;

    /// Switch a bound line into the bus's alternate function.
    fn setup(&mut self)
        ensures
            final(self).is_bound() == old(self).is_bound(),
            old(self).is_bound() ==> final(self).in_bus_function(),
            !old(self).is_bound() ==> !final(self).in_bus_function(),
    ;

    /// Switch the line back to an idle state and return it.
    fn release(self) -> (r: Self)
        ensures
            r.is_bound() == self.is_bound(),
            !r.in_bus_function(),
    ;
}

/// A full pin set for the controller `SPI`.
pub trait Pins<SPI>: Sized {
    /// Every bound line of the set sits in the bus's alternate function.
    spec fn ready(&self) -> bool;

    /// No line of the set sits in the bus's alternate function.
    spec fn idle(&self) -> bool;

    /// Switch every bound line into the bus's alternate function.
    fn setup(&mut self)
        ensures
            final(self).ready(),
    ;

    /// Switch every line back to an idle state and return the set.
    fn release(self) -> (r: Self)
        ensures
            r.idle(),
    ;
}

impl<SPI, SCK: PinSck<SPI>, MISO: PinMiso<SPI>, MOSI: PinMosi<SPI>> Pins<SPI> for (
    SCK,
    MISO,
    MOSI,
) {
    open spec fn ready(&self) -> bool {
        &&& (self.0.is_bound() ==> self.0.in_bus_function())
        &&& (self.1.is_bound() ==> self.1.in_bus_function())
        &&& (self.2.is_bound() ==> self.2.in_bus_function())
    }

    open spec fn idle(&self) -> bool {
        &&& !self.0.in_bus_function()
        &&& !self.1.in_bus_function()
        &&& !self.2.in_bus_function()
    }

    fn setup(&mut self) {
        self.0.setup();
        self.1.setup();
        self.2.setup();
    }

    fn release(self) -> Self {
        (self.0.release(), self.1.release(), self.2.release())
    }
}

/// A placeholder for an unbound clock line. It performs no hardware action.
pub struct NoSck;

/// A placeholder for an unbound master-in line. It performs no hardware action.
pub struct NoMiso;

/// A placeholder for an unbound master-out line. It performs no hardware action.
pub struct NoMosi;

impl<SPI> PinSck<SPI> for NoSck {
    open spec fn is_bound(&self) -> bool {
        false
    }

    open spec fn in_bus_function(&self) -> bool {
        false
    }

    fn setup(&mut self) {
    }

    fn release(self) -> Self {
        self
    }
}

impl<SPI> PinMiso<SPI> for NoMiso {
    open spec fn is_bound(&self) -> bool {
        false
    }

    open spec fn in_bus_function(&self) -> bool {
        false
    }

    fn setup(&mut self) {
    }

    fn release(self) -> Self {
        self
    }
}

impl<SPI> PinMosi<SPI> for NoMosi {
    open spec fn is_bound(&self) -> bool {
        false
    }

    open spec fn in_bus_function(&self) -> bool {
        false
    }

    fn setup(&mut self) {
    }

    fn release(self) -> Self {
        self
    }
}

} // verus!
