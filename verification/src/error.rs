//! Bus faults and their coarse classification.

use vstd::prelude::*;

verus! {

/// A fault raised while driving the bus.
#[derive(Copy, Clone, Debug, PartialEq, Eq, Structural)]
pub enum Error {
    /// A received byte arrived before the previous one was drained from the
    /// data register.
    Overrun,
    /// The hardware detected a conflict over which device is bus master.
    ModeFault,
    /// The hardware CRC check failed.
    Crc,
    /// The chip-select line driver failed to change state.
    ChipSelectFault,
}

/// The coarse fault taxonomy used by callers that only need a category.
#[derive(Copy, Clone, Debug, PartialEq, Eq, Structural)]
pub enum ErrorKind {
    /// An overrun fault.
    Overrun,
    /// A master/slave role conflict.
    ModeFault,
    /// A chip-select line failure.
    ChipSelectFault,
    /// Any fault without a matching coarse category.
    Other,
}

/// The coarse category of each fault: overrun, mode-fault and chip-select
/// faults map to their own kinds, and a CRC failure maps to [`ErrorKind::Other`].
pub open spec fn kind_of(e: Error) -> ErrorKind {
    match e {
        Error::Overrun => ErrorKind::Overrun,
        Error::ModeFault => ErrorKind::ModeFault,
        Error::ChipSelectFault => ErrorKind::ChipSelectFault,
        Error::Crc => ErrorKind::Other,
    }
}

impl Error {
    /// The coarse category of this fault.
    pub fn kind(&self) -> (k: ErrorKind)
        ensures
            k == kind_of(*self),
    {
        match self {
            Error::Overrun => ErrorKind::Overrun,
            Error::ModeFault => ErrorKind::ModeFault,
            Error::ChipSelectFault => ErrorKind::ChipSelectFault,
            Error::Crc => ErrorKind::Other,
        }
    }
}

} // verus!
