//! A polled driver for a synchronous serial (SPI-class) bus controller.
//!
//! The driver programs a bus peripheral's clock divisor and signal mode,
//! binds the clock and data lines, and runs byte-oriented transfers with
//! chip-select discipline and hardware-fault detection. The peripheral's
//! register set, the pin capabilities, the chip-select line and the delay
//! source are all reached through traits, so the same protocol logic serves
//! every concrete controller, and an in-memory peripheral can stand in for
//! the hardware.

pub mod bus;
pub mod delay;
pub mod device;
pub mod divisor;
pub mod error;
pub mod events;
pub mod mock;
pub mod mode;
pub mod peripheral;
pub mod pins;
pub mod rcc;
pub mod select;
pub mod time;
