//! In-memory stand-ins for the hardware collaborators: a scriptable bus
//! controller, a recording chip-select line and a recording delay source.
//! They satisfy the same contracts as the hardware capabilities and expose
//! their state, so the protocol can be exercised and observed without a
//! peripheral.

use vstd::prelude::*;
use crate::delay::DelayProvider;
use crate::error::Error;
use crate::events::BusEvent;
use crate::peripheral::{status_fault, ControlWord, Instance, PeriphConfig, PowerEvent, Status};
use crate::rcc::Rcc;
use crate::select::ChipSelectPin;

verus! {

/// An in-memory bus controller.
///
/// Status readings come from the `statuses` script, front first; once the
/// script is empty every reading reports both transmit-ready and
/// receive-ready and no fault. Data reads come from the `responses` script,
/// front first; once it is empty the controller loops back the last byte
/// written, one exchange later. Every data-register access lands in
/// `events`, and the programmed configuration in `cfg`.
pub struct MockSpi {
    /// Every data byte sent or received, in order.
    pub events: Vec<BusEvent>,
    /// Status readings still to be served, front first.
    pub statuses: Vec<Status>,
    /// Data bytes still to be served, front first; empty means loopback.
    pub responses: Vec<u8>,
    /// The byte most recently written for transmission.
    pub last_sent: u8,
    /// The configuration programmed so far.
    pub cfg: PeriphConfig,
    /// Every call made into the clock and reset collaborator, in order.
    pub power: Vec<PowerEvent>,
    /// Every fault flag observed in a status reading, in order.
    pub faults_seen: Vec<Error>,
}

impl MockSpi {
    /// A fresh controller: empty scripts, loopback data, nothing programmed.
    pub fn new() -> (m: MockSpi)
        ensures
            m.transcript() == Seq::<BusEvent>::empty(),
            m.statuses@ == Seq::<Status>::empty(),
            m.responses@ == Seq::<u8>::empty(),
            m.power_events() == Seq::<PowerEvent>::empty(),
            m.faults() == Seq::<Error>::empty(),
            m.last_sent == 0,
            m.config().control is None,
    {
        MockSpi {
            events: Vec::new(),
            statuses: Vec::new(),
            responses: Vec::new(),
            last_sent: 0,
            cfg: PeriphConfig {
                ss_output_enabled: true,
                byte_rx_threshold: false,
                frame_bits: 0,
                control: None,
            },
            power: Vec::new(),
            faults_seen: Vec::new(),
        }
    }
}

impl Instance for MockSpi {
    open spec fn transcript(&self) -> Seq<BusEvent> {
        self.events@
    }

    open spec fn config(&self) -> PeriphConfig {
        self.cfg
    }

    open spec fn poll_budget(&self) -> nat {
        self.statuses@.len()
    }

    open spec fn power_events(&self) -> Seq<PowerEvent> {
        self.power@
    }

    open spec fn faults(&self) -> Seq<Error> {
        self.faults_seen@
    }

    fn enable(&mut self, rcc: &mut Rcc) {
        self.power.push(PowerEvent::Enabled);
    }

    fn reset(&mut self, rcc: &mut Rcc) {
        self.power.push(PowerEvent::Reset);
    }

    fn set_ss_output(&mut self, enabled: bool) {
        self.cfg.ss_output_enabled = enabled;
    }

    fn set_rx_threshold(&mut self, byte_level: bool) {
        self.cfg.byte_rx_threshold = byte_level;
    }

    fn set_frame_size(&mut self, bits: u8) {
        self.cfg.frame_bits = bits;
    }

    fn write_control(&mut self, w: ControlWord) {
        self.cfg.control = Some(w);
    }

    fn set_bidirectional(&mut self, enabled: bool) {
        match self.cfg.control {
            Some(w) => {
                let mut w2 = w;
                w2.bidirectional = enabled;
                self.cfg.control = Some(w2);
            },
            None => {
            },
        }
    }

    fn set_bidirectional_output(&mut self, enabled: bool) {
        match self.cfg.control {
            Some(w) => {
                let mut w2 = w;
                w2.bidirectional_output = enabled;
                self.cfg.control = Some(w2);
            },
            None => {
            },
        }
    }

    fn read_status(&mut self) -> (s: Status) {
        let s = if self.statuses.len() > 0 {
            self.statuses.remove(0)
        } else {
            Status {
                overrun: false,
                mode_fault: false,
                crc_error: false,
                tx_ready: true,
                rx_ready: true,
            }
        };
        match status_fault(s) {
            Some(e) => self.faults_seen.push(e),
            None => {
            },
        }
        s
    }

    fn write_data(&mut self, byte: u8) {
        self.last_sent = byte;
        self.events.push(BusEvent::Sent(byte));
    }

    fn read_data(&mut self) -> (byte: u8) {
        let b = if self.responses.len() > 0 {
            self.responses.remove(0)
        } else {
            self.last_sent
        };
        self.events.push(BusEvent::Received(b));
        b
    }
}

/// A recording chip-select line, with optional injected failures.
pub struct MockCs {
    /// The levels the line was driven to, in order.
    pub levels: Vec<bool>,
    /// Fail every attempt to drive the line low.
    pub fail_low: bool,
    /// Fail every attempt to drive the line high.
    pub fail_high: bool,
}

impl MockCs {
    /// A fresh line that never fails and has driven nothing yet.
    pub fn new() -> (cs: MockCs)
        ensures
            cs.history() == Seq::<bool>::empty(),
            cs.recording(),
            !cs.fail_low,
            !cs.fail_high,
    {
        MockCs { levels: Vec::new(), fail_low: false, fail_high: false }
    }
}

impl ChipSelectPin for MockCs {
    open spec fn history(&self) -> Seq<bool> {
        self.levels@
    }

    open spec fn recording(&self) -> bool {
        true
    }

    fn set_low(&mut self) -> (r: Result<(), ()>) {
        if self.fail_low {
            Err(())
        } else {
            self.levels.push(false);
            Ok(())
        }
    }

    fn set_high(&mut self) -> (r: Result<(), ()>) {
        if self.fail_high {
            Err(())
        } else {
            self.levels.push(true);
            Ok(())
        }
    }
}

/// A recording delay source: it blocks for no time and logs every request.
pub struct MockDelay {
    /// Every requested delay in nanoseconds, in order.
    pub log: Vec<u32>,
}

impl MockDelay {
    /// A fresh delay source with an empty log.
    pub fn new() -> (d: MockDelay)
        ensures
            d.delays() == Seq::<u32>::empty(),
            d.recording(),
    {
        MockDelay { log: Vec::new() }
    }
}

impl DelayProvider for MockDelay {
    open spec fn delays(&self) -> Seq<u32> {
        self.log@
    }

    open spec fn recording(&self) -> bool {
        true
    }

    fn delay_ns(&mut self, ns: u32) {
        self.log.push(ns);
    }
}

} // verus!
