//! The register-accessor capability: how the driver reaches one bus
//! controller's register set, and the abstract state those registers hold.

use vstd::prelude::*;
use crate::error::Error;
use crate::events::BusEvent;
use crate::rcc::Rcc;

verus! {

/// One reading of the status register.
#[derive(Copy, Clone, Debug, PartialEq, Eq, Structural)]
pub struct Status {
    /// A received byte arrived before the previous one was drained.
    pub overrun: bool,
    /// The hardware detected a master/slave role conflict.
    pub mode_fault: bool,
    /// The hardware CRC check failed.
    pub crc_error: bool,
    /// The transmit register is ready to accept a byte.
    pub tx_ready: bool,
    /// A received byte is ready to be drained.
    pub rx_ready: bool,
}

/// The fault a status reading carries, if any, in the priority the transfer
/// protocol checks them: overrun first, then mode fault, then CRC error.
pub open spec fn fault_of(s: Status) -> Option<Error> {
    if s.overrun {
        Some(Error::Overrun)
    } else if s.mode_fault {
        Some(Error::ModeFault)
    } else if s.crc_error {
        Some(Error::Crc)
    } else {
        None
    }
}

/// The fault a status reading carries, if any.
pub fn status_fault(s: Status) -> (r: Option<Error>)
    ensures
        r == fault_of(s),
{
    if s.overrun {
        Some(Error::Overrun)
    } else if s.mode_fault {
        Some(Error::ModeFault)
    } else if s.crc_error {
        Some(Error::Crc)
    } else {
        None
    }
}

/// One call into the clock and reset collaborator.
#[derive(Copy, Clone, Debug, PartialEq, Eq, Structural)]
pub enum PowerEvent {
    /// The peripheral's clock was switched on.
    Enabled,
    /// The peripheral was reset.
    Reset,
}

/// The contents of the control register, as the driver programs it.
#[derive(Copy, Clone, Debug, PartialEq, Eq, Structural)]
pub struct ControlWord {
    /// Capture data on the second clock transition rather than the first.
    pub capture_on_second_edge: bool,
    /// The clock idles high rather than low.
    pub idle_high: bool,
    /// The controller acts as bus master.
    pub master: bool,
    /// The three-bit clock prescaler code.
    pub divisor: u8,
    /// Shift the least significant bit first rather than the most.
    pub lsb_first: bool,
    /// Software slave management: the internal slave-select signal follows
    /// a register bit rather than the physical line.
    pub software_slave_management: bool,
    /// The internal slave-select signal is forced asserted, so the
    /// controller never treats itself as selected by another master.
    pub internal_slave_select: bool,
    /// Receive-only operation.
    pub rx_only: bool,
    /// A sixteen-bit rather than eight-bit hardware CRC.
    pub crc_length_16: bool,
    /// Half-duplex wiring: one data line, direction switched.
    pub bidirectional: bool,
    /// In half-duplex wiring, drive the line (transmit) rather than listen.
    pub bidirectional_output: bool,
    /// The peripheral is enabled.
    pub enabled: bool,
}

/// The peripheral's configuration, as far as this driver programs it.
#[derive(Copy, Clone, Debug, PartialEq, Eq)]
pub struct PeriphConfig {
    /// The automatic slave-select output is enabled.
    pub ss_output_enabled: bool,
    /// Receive-ready is reported as soon as one byte is available, rather
    /// than half a data register.
    pub byte_rx_threshold: bool,
    /// The frame width in bits.
    pub frame_bits: u8,
    /// The control register, once programmed.
    pub control: Option<ControlWord>,
}

/// Exclusive access to one bus controller's register set.
///
/// The trait carries the abstract state the driver's contracts speak of: a
/// transcript of every data-register access, the configuration programmed
/// so far, a record of the clock and reset calls, a record of every fault
/// flag observed, and a poll budget. The budget is a ghost measure that witnesses
/// the termination of the driver's polling loops against peripherals whose
/// readiness is known, such as the in-memory ones used for testing; how
/// promptly real hardware reports readiness is the peripheral's own affair,
/// and the driver waits for it without a timeout.
pub trait Instance: Sized {
    /// Every data byte written to or drained from the data register, in order.
    spec fn transcript(&self) -> Seq<BusEvent>;

    /// The configuration programmed so far.
    spec fn config(&self) -> PeriphConfig;

    /// An upper bound on the status polls still to be answered with neither
    /// a fault nor full readiness.
    spec fn poll_budget(&self) -> nat;

    /// Every call made into the clock and reset collaborator, in order.
    spec fn power_events(&self) -> Seq<PowerEvent>;

    /// Every fault flag observed in a status reading, in order, classified
    /// by [`fault_of`].
    spec fn faults(&self) -> Seq<Error>;

    /// Request power for the peripheral from the clock controller.
    fn enable(&mut self, rcc: &mut Rcc)
        ensures
            final(self).transcript() == old(self).transcript(),
            final(self).config() == old(self).config(),
            final(self).power_events() == old(self).power_events().push(PowerEvent::Enabled),
            final(self).faults() == old(self).faults(),
            *final(rcc) == *old(rcc),
    ;

    /// Reset the peripheral through the reset controller. The registers may
    /// take any state; construction programs them all afterwards.
    fn reset(&mut self, rcc: &mut Rcc)
        ensures
            final(self).transcript() == old(self).transcript(),
            final(self).power_events() == old(self).power_events().push(PowerEvent::Reset),
            final(self).faults() == old(self).faults(),
            *final(rcc) == *old(rcc),
    ;

    /// Switch the automatic slave-select output on or off.
    fn set_ss_output(&mut self, enabled: bool)
        ensures
            final(self).transcript() == old(self).transcript(),
            final(self).power_events() == old(self).power_events(),
            final(self).faults() == old(self).faults(),
            final(self).config() == (PeriphConfig {
                ss_output_enabled: enabled,
                ..old(self).config()
            }),
    ;

    /// Choose whether receive-ready is reported at one byte.
    fn set_rx_threshold(&mut self, byte_level: bool)
        ensures
            final(self).transcript() == old(self).transcript(),
            final(self).power_events() == old(self).power_events(),
            final(self).faults() == old(self).faults(),
            final(self).config() == (PeriphConfig {
                byte_rx_threshold: byte_level,
                ..old(self).config()
            }),
    ;

    /// Select the frame width.
    fn set_frame_size(&mut self, bits: u8)
        requires
            bits >= 1,
        ensures
            final(self).transcript() == old(self).transcript(),
            final(self).power_events() == old(self).power_events(),
            final(self).faults() == old(self).faults(),
            final(self).config() == (PeriphConfig { frame_bits: bits, ..old(self).config() }),
    ;

    /// Program the whole control register.
    fn write_control(&mut self, w: ControlWord)
        ensures
            final(self).transcript() == old(self).transcript(),
            final(self).power_events() == old(self).power_events(),
            final(self).faults() == old(self).faults(),
            final(self).config() == (PeriphConfig { control: Some(w), ..old(self).config() }),
    ;

    /// Rewrite the half-duplex wiring bit of the control register.
    fn set_bidirectional(&mut self, enabled: bool)
        requires
            self.config().control is Some,
        ensures
            final(self).transcript() == old(self).transcript(),
            final(self).power_events() == old(self).power_events(),
            final(self).faults() == old(self).faults(),
            final(self).config() == (PeriphConfig {
                control: Some(
                    ControlWord { bidirectional: enabled, ..old(self).config().control->Some_0 },
                ),
                ..old(self).config()
            }),
    ;

    /// Rewrite the half-duplex transmit-enable bit of the control register.
    fn set_bidirectional_output(&mut self, enabled: bool)
        requires
            self.config().control is Some,
        ensures
            final(self).transcript() == old(self).transcript(),
            final(self).power_events() == old(self).power_events(),
            final(self).faults() == old(self).faults(),
            final(self).config() == (PeriphConfig {
                control: Some(
                    ControlWord {
                        bidirectional_output: enabled,
                        ..old(self).config().control->Some_0
                    },
                ),
                ..old(self).config()
            }),
    ;

    /// Read the status register. A reading that reports neither a fault nor
    /// readiness on both sides spends poll budget, so a polling loop on a
    /// peripheral of known readiness comes to an end.
    fn read_status(&mut self) -> (s: Status)
        ensures
            final(self).transcript() == old(self).transcript(),
            final(self).config() == old(self).config(),
            final(self).power_events() == old(self).power_events(),
            (fault_of(s) matches Some(e) ==> final(self).faults() == old(self).faults().push(e)),
            fault_of(s) is None ==> final(self).faults() == old(self).faults(),
            !(s.overrun || s.mode_fault || s.crc_error || (s.tx_ready && s.rx_ready))
                ==> final(self).poll_budget() < old(self).poll_budget(),
    ;

    /// Write one byte into the data register for transmission.
    fn write_data(&mut self, byte: u8)
        ensures
            final(self).transcript() == old(self).transcript().push(BusEvent::Sent(byte)),
            final(self).config() == old(self).config(),
            final(self).power_events() == old(self).power_events(),
            final(self).faults() == old(self).faults(),
    ;

    /// Drain one byte from the data register.
    fn read_data(&mut self) -> (byte: u8)
        ensures
            final(self).transcript() == old(self).transcript().push(BusEvent::Received(byte)),
            final(self).config() == old(self).config(),
            final(self).power_events() == old(self).power_events(),
            final(self).faults() == old(self).faults(),
    ;
}

} // verus!
