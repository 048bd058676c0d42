//! The bus: one configured controller with its pins, and the byte-level
//! transfer protocol.
//!
//! Each byte crosses the wire in two phases. The send phase polls the
//! status register until a fault appears or the transmit register is ready,
//! then writes the byte; the receive phase polls the same way until a byte
//! can be drained. The phases never pipeline: a byte's inbound answer is
//! drained before the next byte's send starts. The composite operations
//! drive those two phases over whole buffers, padding with zero filler
//! where one side has nothing to send and discarding where nothing is kept.

use vstd::prelude::*;
use crate::delay::DelayProvider;
use crate::device::SpiDevice;
use crate::divisor::{clock_ratio, divisor_code, divisor_code_spec};
use crate::error::Error;
use crate::events::{
    complete_exchange, lemma_exchange_step, lemma_exchange_widen, partial_exchange,
    pad_with_zeros, received_of, zero_bytes, BusEvent,
};
use crate::mode::{Mode, Phase, Polarity};
use crate::peripheral::{status_fault, ControlWord, Instance, PeriphConfig, PowerEvent};
use crate::pins::Pins;
use crate::rcc::Rcc;
use crate::select::ChipSelectPin;
use crate::time::Hertz;

verus! {

/// The control word construction programs: the caller's phase, polarity and
/// divisor; master mode; most-significant bit first; software slave
/// management with the internal slave-select forced asserted; full-duplex,
/// non-CRC, non-bidirectional operation; and the peripheral enabled.
pub open spec fn initial_control(mode: Mode, code: u8) -> ControlWord {
    ControlWord {
        capture_on_second_edge: mode.phase is CaptureOnSecondTransition,
        idle_high: mode.polarity is IdleHigh,
        master: true,
        divisor: code,
        lsb_first: false,
        software_slave_management: true,
        internal_slave_select: true,
        rx_only: false,
        crc_length_16: false,
        bidirectional: false,
        bidirectional_output: false,
        enabled: true,
    }
}

/// The whole configuration construction leaves behind: automatic
/// slave-select output disabled, receive-ready reported at one byte,
/// eight-bit frames, and the initial control word.
pub open spec fn initial_config(mode: Mode, code: u8) -> PeriphConfig {
    PeriphConfig {
        ss_output_enabled: false,
        byte_rx_threshold: true,
        frame_bits: 8,
        control: Some(initial_control(mode, code)),
    }
}

/// What one status poll led to.
enum SinglePoll<T> {
    /// The phase completed, yielding its value.
    Ready(T),
    /// Neither a fault nor readiness: poll again.
    Blocked,
    /// A fault flag was set.
    Failed(Error),
}

/// A bus: exclusive ownership of one controller and its pin set.
pub struct SpiBus<SPI, PINS> {
    spi: SPI,
    pins: PINS,
}

impl<SPI: Instance, PINS> SpiBus<SPI, PINS> {
    /// The controller's transcript: every data byte sent or received.
    pub closed spec fn transcript(&self) -> Seq<BusEvent> {
        self.spi.transcript()
    }

    /// The controller's configuration.
    pub closed spec fn config(&self) -> PeriphConfig {
        self.spi.config()
    }

    /// The controller's remaining poll budget.
    pub closed spec fn poll_budget(&self) -> nat {
        self.spi.poll_budget()
    }

    /// The controller's record of clock and reset collaborator calls.
    pub closed spec fn power_events(&self) -> Seq<PowerEvent> {
        self.spi.power_events()
    }

    /// The controller's record of observed fault flags.
    pub closed spec fn faults(&self) -> Seq<Error> {
        self.spi.faults()
    }

    /// The control register has been programmed, as construction does.
    pub open spec fn configured(&self) -> bool {
        self.config().control is Some
    }
}

impl<SPI: Instance, PINS: Pins<SPI>> SpiBus<SPI, PINS> {
    /// Every bound line of the owned pin set sits in the bus's alternate
    /// function, as construction leaves it.
    pub closed spec fn pins_ready(&self) -> bool {
        self.pins.ready()
    }

    /// Bind a powered-off controller and a pin set into a configured bus.
    ///
    /// The peripheral is powered and reset, the automatic slave-select
    /// output is disabled, receive-ready is set to report at one byte,
    /// eight-bit frames are selected, the pins are switched into the bus's
    /// alternate function, and the control register is programmed from the
    /// mode and the divisor derived from the bus clock and `speed`. The
    /// target must not exceed the bus clock.
    pub fn new(spi: SPI, pins: PINS, mode: Mode, speed: Hertz, rcc: &mut Rcc) -> (bus: Self)
        requires
            speed.0 > 0,
            clock_ratio(old(rcc).clocks.apb_clk, speed) >= 1,
        ensures
            *final(rcc) == *old(rcc),
            bus.transcript() == spi.transcript(),
            bus.config() == initial_config(
                mode,
                divisor_code_spec(clock_ratio(old(rcc).clocks.apb_clk, speed)) as u8,
            ),
            bus.configured(),
            bus.power_events() == spi.power_events() + seq![
                PowerEvent::Enabled,
                PowerEvent::Reset,
            ],
            bus.faults() == spi.faults(),
            bus.pins_ready(),
    {
        let mut spi = spi;
        let mut pins = pins;
        proof {
            assert(spi.power_events().push(PowerEvent::Enabled).push(PowerEvent::Reset)
                =~= spi.power_events() + seq![PowerEvent::Enabled, PowerEvent::Reset]);
        }
        spi.enable(rcc);
        spi.reset(rcc);

        // disable the automatic slave-select output before anything else
        spi.set_ss_output(false);

        let code = divisor_code(rcc.clocks.apb_clk, speed);

        spi.set_rx_threshold(true);
        spi.set_frame_size(8);

        pins.setup();

        spi.write_control(
            ControlWord {
                capture_on_second_edge: mode.phase == Phase::CaptureOnSecondTransition,
                idle_high: mode.polarity == Polarity::IdleHigh,
                master: true,
                divisor: code,
                lsb_first: false,
                software_slave_management: true,
                internal_slave_select: true,
                rx_only: false,
                crc_length_16: false,
                bidirectional: false,
                bidirectional_output: false,
                enabled: true,
            },
        );

        SpiBus { spi, pins }
    }

    /// Attach a chip-select line and a delay source, making this bus the
    /// exclusively owned engine of a device. The bus becomes unreachable
    /// except through the device.
    pub fn exclusive<CS: ChipSelectPin, DELAY: DelayProvider>(self, cs: CS, delay: DELAY) -> (dev:
        SpiDevice<SpiBus<SPI, PINS>, CS, DELAY>)
        ensures
            dev.parts() == (self, cs, delay),
    {
        SpiDevice::compose(self, cs, delay)
    }

    /// Rewrite the frame width. Must not be called while a transfer is
    /// outstanding.
    pub fn data_size(&mut self, nr_bits: u8)
        requires
            nr_bits >= 1,
        ensures
            final(self).transcript() == old(self).transcript(),
            final(self).faults() == old(self).faults(),
            final(self).config() == (PeriphConfig {
                frame_bits: nr_bits,
                ..old(self).config()
            }),
    {
        self.spi.set_frame_size(nr_bits);
    }

    /// Switch half-duplex (bidirectional) wiring on or off. Must not be
    /// called while a transfer is outstanding.
    pub fn half_duplex_enable(&mut self, enable: bool)
        requires
            self.configured(),
        ensures
            final(self).transcript() == old(self).transcript(),
            final(self).faults() == old(self).faults(),
            final(self).config() == (PeriphConfig {
                control: Some(
                    ControlWord { bidirectional: enable, ..old(self).config().control->Some_0 },
                ),
                ..old(self).config()
            }),
    {
        self.spi.set_bidirectional(enable);
    }

    /// In half-duplex wiring, switch the transmit direction on or off.
    /// Must not be called while a transfer is outstanding.
    pub fn half_duplex_output_enable(&mut self, enable: bool)
        requires
            self.configured(),
        ensures
            final(self).transcript() == old(self).transcript(),
            final(self).faults() == old(self).faults(),
            final(self).config() == (PeriphConfig {
                control: Some(
                    ControlWord {
                        bidirectional_output: enable,
                        ..old(self).config().control->Some_0
                    },
                ),
                ..old(self).config()
            }),
    {
        self.spi.set_bidirectional_output(enable);
    }

    /// Tear the bus down: the pins return to their idle state and the raw
    /// controller handle comes back to the caller for re-use.
    pub fn release(self) -> (r: (SPI, PINS))
        ensures
            r.0.transcript() == self.transcript(),
            r.0.config() == self.config(),
            r.0.faults() == self.faults(),
            r.1.idle(),
    {
        (self.spi, self.pins.release())
    }
}

impl<SPI: Instance, PINS> SpiBus<SPI, PINS> {
    /// One poll of the send phase: fail on a fault flag, write the byte if
    /// the transmit register is ready, report blocked otherwise.
    fn send_byte(&mut self, byte: u8) -> (r: SinglePoll<()>)
        ensures
            final(self).config() == old(self).config(),
            r is Ready ==> final(self).transcript() == old(self).transcript().push(
                BusEvent::Sent(byte),
            ),
            !(r is Ready) ==> final(self).transcript() == old(self).transcript(),
            (r matches SinglePoll::Failed(e) ==> final(self).faults() == old(self).faults().push(
                e,
            )),
            !(r is Failed) ==> final(self).faults() == old(self).faults(),
            r is Blocked ==> final(self).poll_budget() < old(self).poll_budget(),
    {
        let sr = self.spi.read_status();
        match status_fault(sr) {
            Some(e) => SinglePoll::Failed(e),
            None => {
                if sr.tx_ready {
                    self.spi.write_data(byte);
                    SinglePoll::Ready(())
                } else {
                    SinglePoll::Blocked
                }
            },
        }
    }

    /// One poll of the receive phase: fail on a fault flag, drain one byte
    /// if one is ready, report blocked otherwise.
    fn receive_byte(&mut self) -> (r: SinglePoll<u8>)
        ensures
            final(self).config() == old(self).config(),
            (r matches SinglePoll::Ready(b) ==> final(self).transcript() == old(
                self,
            ).transcript().push(BusEvent::Received(b))),
            !(r is Ready) ==> final(self).transcript() == old(self).transcript(),
            (r matches SinglePoll::Failed(e) ==> final(self).faults() == old(self).faults().push(
                e,
            )),
            !(r is Failed) ==> final(self).faults() == old(self).faults(),
            r is Blocked ==> final(self).poll_budget() < old(self).poll_budget(),
    {
        let sr = self.spi.read_status();
        match status_fault(sr) {
            Some(e) => SinglePoll::Failed(e),
            None => {
                if sr.rx_ready {
                    SinglePoll::Ready(self.spi.read_data())
                } else {
                    SinglePoll::Blocked
                }
            },
        }
    }

    /// Run the send phase to completion: poll until the byte goes out or a
    /// fault aborts it. On a fault nothing is written, so the transcript
    /// does not advance.
    #[verifier::loop_isolation(false)]
    fn send_byte_blocking(&mut self, byte: u8) -> (r: Result<(), Error>)
        ensures
            final(self).config() == old(self).config(),
            r is Ok ==> final(self).transcript() == old(self).transcript().push(
                BusEvent::Sent(byte),
            ),
            r is Err ==> final(self).transcript() == old(self).transcript(),
            (r matches Err(e) ==> final(self).faults() == old(self).faults().push(e)),
            r is Ok ==> final(self).faults() == old(self).faults(),
    {
        loop
            invariant
                self.transcript() == old(self).transcript(),
                self.config() == old(self).config(),
                self.faults() == old(self).faults(),
            decreases self.poll_budget(),
        {
            match self.send_byte(byte) {
                SinglePoll::Ready(_) => {
                    return Ok(());
                },
                SinglePoll::Failed(e) => {
                    return Err(e);
                },
                SinglePoll::Blocked => {
                },
            }
        }
    }

    /// Run the receive phase to completion: poll until a byte is drained or
    /// a fault aborts it. On a fault nothing is drained, so the transcript
    /// does not advance.
    #[verifier::loop_isolation(false)]
    fn receive_byte_blocking(&mut self) -> (r: Result<u8, Error>)
        ensures
            final(self).config() == old(self).config(),
            (r matches Ok(b) ==> final(self).transcript() == old(self).transcript().push(
                BusEvent::Received(b),
            )),
            r is Err ==> final(self).transcript() == old(self).transcript(),
            (r matches Err(e) ==> final(self).faults() == old(self).faults().push(e)),
            r is Ok ==> final(self).faults() == old(self).faults(),
    {
        loop
            invariant
                self.transcript() == old(self).transcript(),
                self.config() == old(self).config(),
                self.faults() == old(self).faults(),
            decreases self.poll_budget(),
        {
            match self.receive_byte() {
                SinglePoll::Ready(b) => {
                    return Ok(b);
                },
                SinglePoll::Failed(e) => {
                    return Err(e);
                },
                SinglePoll::Blocked => {
                },
            }
        }
    }

    /// Fill `bytes` from the bus: for every position one zero filler byte
    /// goes out and the answering byte is kept. On a fault the positions
    /// already exchanged keep their new bytes and the rest keep their old
    /// ones. An empty buffer asks for nothing and cannot fail.
    #[verifier::loop_isolation(false)]
    pub fn read(&mut self, bytes: &mut Vec<u8>) -> (r: Result<(), Error>)
        ensures
            final(self).config() == old(self).config(),
            final(bytes)@.len() == old(bytes)@.len(),
            old(self).transcript().is_prefix_of(final(self).transcript()),
            ({
                let ext = final(self).transcript().skip(old(self).transcript().len() as int);
                &&& partial_exchange(ext, zero_bytes(old(bytes)@.len()))
                &&& (r is Ok ==> ext.len() == 2 * old(bytes)@.len())
                &&& (forall|j: int|
                    0 <= j < received_of(ext).len() ==> final(bytes)@[j] == received_of(ext)[j])
                &&& (forall|j: int|
                    received_of(ext).len() <= j < old(bytes)@.len() ==> final(bytes)@[j] == old(
                        bytes,
                    )@[j])
            }),
            (r matches Err(e) ==> final(self).faults() == old(self).faults().push(e)),
            r is Ok ==> final(self).faults() == old(self).faults(),
            old(bytes)@.len() == 0 ==> r is Ok,
    {
        let ghost t0 = self.transcript();
        let ghost plan = zero_bytes(old(bytes)@.len());
        proof {
            assert(t0.skip(t0.len() as int) =~= Seq::<BusEvent>::empty());
            assert(plan.take(0) =~= Seq::<u8>::empty());
            assert(t0.is_prefix_of(t0)) by {
                assert(t0 =~= t0.subrange(0, t0.len() as int));
            }
        }
        let n = bytes.len();
        let mut i: usize = 0;
        while i < n
            invariant
                i <= n,
                n == old(bytes)@.len(),
                bytes@.len() == n,
                self.config() == old(self).config(),
                self.faults() == old(self).faults(),
                t0.is_prefix_of(self.transcript()),
                complete_exchange(self.transcript().skip(t0.len() as int), plan.take(i as int)),
                forall|j: int|
                    0 <= j < i ==> bytes@[j] == received_of(
                        self.transcript().skip(t0.len() as int),
                    )[j],
                forall|j: int| i <= j < n ==> bytes@[j] == old(bytes)@[j],
            decreases n - i,
        {
            let ghost t_pre = self.transcript();
            match self.send_byte_blocking(0) {
                Err(e) => {
                    proof {
                        assert(plan.take(i as int).is_prefix_of(plan));
                        lemma_exchange_widen(
                            t_pre.skip(t0.len() as int),
                            plan.take(i as int),
                            plan,
                        );
                    }
                    return Err(e);
                },
                Ok(_) => {
                },
            }
            match self.receive_byte_blocking() {
                Err(e) => {
                    proof {
                        lemma_exchange_step(t0, t_pre, self.transcript(), plan, i as int, None);
                    }
                    return Err(e);
                },
                Ok(x) => {
                    proof {
                        lemma_exchange_step(t0, t_pre, self.transcript(), plan, i as int, Some(x));
                    }
                    bytes[i] = x;
                },
            }
            i += 1;
        }
        proof {
            assert(plan.take(n as int) =~= plan);
        }
        Ok(())
    }

    /// Send every byte of `bytes` in order, draining and discarding the
    /// byte answering each: the bus is full-duplex, and an undrained answer
    /// would raise an overrun on the next send. An empty buffer asks for
    /// nothing and cannot fail.
    #[verifier::loop_isolation(false)]
    pub fn write(&mut self, bytes: &Vec<u8>) -> (r: Result<(), Error>)
        ensures
            final(self).config() == old(self).config(),
            old(self).transcript().is_prefix_of(final(self).transcript()),
            partial_exchange(
                final(self).transcript().skip(old(self).transcript().len() as int),
                bytes@,
            ),
            r is Ok ==> final(self).transcript().len() == old(self).transcript().len() + 2
                * bytes@.len(),
            (r matches Err(e) ==> final(self).faults() == old(self).faults().push(e)),
            r is Ok ==> final(self).faults() == old(self).faults(),
            bytes@.len() == 0 ==> r is Ok,
    {
        let ghost t0 = self.transcript();
        let ghost plan = bytes@;
        proof {
            assert(t0.skip(t0.len() as int) =~= Seq::<BusEvent>::empty());
            assert(plan.take(0) =~= Seq::<u8>::empty());
            assert(t0.is_prefix_of(t0)) by {
                assert(t0 =~= t0.subrange(0, t0.len() as int));
            }
        }
        let n = bytes.len();
        let mut i: usize = 0;
        while i < n
            invariant
                i <= n,
                n == bytes@.len(),
                self.config() == old(self).config(),
                self.faults() == old(self).faults(),
                t0.is_prefix_of(self.transcript()),
                complete_exchange(self.transcript().skip(t0.len() as int), plan.take(i as int)),
            decreases n - i,
        {
            let ghost t_pre = self.transcript();
            let b = bytes[i];
            match self.send_byte_blocking(b) {
                Err(e) => {
                    proof {
                        assert(plan.take(i as int).is_prefix_of(plan));
                        lemma_exchange_widen(
                            t_pre.skip(t0.len() as int),
                            plan.take(i as int),
                            plan,
                        );
                    }
                    return Err(e);
                },
                Ok(_) => {
                },
            }
            match self.receive_byte_blocking() {
                Err(e) => {
                    proof {
                        lemma_exchange_step(t0, t_pre, self.transcript(), plan, i as int, None);
                    }
                    return Err(e);
                },
                Ok(x) => {
                    proof {
                        lemma_exchange_step(t0, t_pre, self.transcript(), plan, i as int, Some(x));
                    }
                },
            }
            i += 1;
        }
        proof {
            assert(plan.take(n as int) =~= plan);
        }
        Ok(())
    }

    /// Exchange over both buffers at once: each outbound byte of `write`
    /// pairs with an inbound byte into `read`. When one buffer is exhausted
    /// the longer side keeps the bus running — zero filler goes out once
    /// `write` is done, and inbound bytes are discarded once `read` is full
    /// — until both are exhausted. Two empty buffers ask for nothing and
    /// cannot fail.
    #[verifier::loop_isolation(false)]
    pub fn transfer(&mut self, read: &mut Vec<u8>, write: &Vec<u8>) -> (r: Result<(), Error>)
        ensures
            final(self).config() == old(self).config(),
            final(read)@.len() == old(read)@.len(),
            old(self).transcript().is_prefix_of(final(self).transcript()),
            ({
                let ext = final(self).transcript().skip(old(self).transcript().len() as int);
                let total = if old(read)@.len() > write@.len() {
                    old(read)@.len()
                } else {
                    write@.len()
                };
                &&& partial_exchange(ext, pad_with_zeros(write@, total))
                &&& (r is Ok ==> ext.len() == 2 * total)
                &&& (forall|j: int|
                    0 <= j < received_of(ext).len() && j < old(read)@.len() ==> final(read)@[j]
                        == received_of(ext)[j])
                &&& (forall|j: int|
                    received_of(ext).len() <= j < old(read)@.len() ==> final(read)@[j] == old(
                        read,
                    )@[j])
            }),
            (r matches Err(e) ==> final(self).faults() == old(self).faults().push(e)),
            r is Ok ==> final(self).faults() == old(self).faults(),
            old(read)@.len() == 0 && write@.len() == 0 ==> r is Ok,
    {
        let ghost t0 = self.transcript();
        let lr = read.len();
        let lw = write.len();
        let n = if lr > lw {
            lr
        } else {
            lw
        };
        let ghost plan = pad_with_zeros(write@, n as nat);
        proof {
            assert(t0.skip(t0.len() as int) =~= Seq::<BusEvent>::empty());
            assert(plan.take(0) =~= Seq::<u8>::empty());
            assert(t0.is_prefix_of(t0)) by {
                assert(t0 =~= t0.subrange(0, t0.len() as int));
            }
        }
        let mut i: usize = 0;
        while i < n
            invariant
                i <= n,
                lr == old(read)@.len(),
                lw == write@.len(),
                n == if lr > lw {
                    lr
                } else {
                    lw
                },
                plan == pad_with_zeros(write@, n as nat),
                read@.len() == lr,
                self.config() == old(self).config(),
                self.faults() == old(self).faults(),
                t0.is_prefix_of(self.transcript()),
                complete_exchange(self.transcript().skip(t0.len() as int), plan.take(i as int)),
                forall|j: int|
                    0 <= j < i && j < lr ==> read@[j] == received_of(
                        self.transcript().skip(t0.len() as int),
                    )[j],
                forall|j: int| i <= j < lr ==> read@[j] == old(read)@[j],
            decreases n - i,
        {
            let ghost t_pre = self.transcript();
            let b = if i < lw {
                write[i]
            } else {
                0
            };
            proof {
                assert(b == plan[i as int]);
            }
            match self.send_byte_blocking(b) {
                Err(e) => {
                    proof {
                        assert(plan.take(i as int).is_prefix_of(plan));
                        lemma_exchange_widen(
                            t_pre.skip(t0.len() as int),
                            plan.take(i as int),
                            plan,
                        );
                    }
                    return Err(e);
                },
                Ok(_) => {
                },
            }
            match self.receive_byte_blocking() {
                Err(e) => {
                    proof {
                        lemma_exchange_step(t0, t_pre, self.transcript(), plan, i as int, None);
                    }
                    return Err(e);
                },
                Ok(x) => {
                    proof {
                        lemma_exchange_step(t0, t_pre, self.transcript(), plan, i as int, Some(x));
                    }
                    if i < lr {
                        read[i] = x;
                    }
                },
            }
            i += 1;
        }
        proof {
            assert(plan.take(n as int) =~= plan);
        }
        Ok(())
    }

    /// Send every byte of `bytes` and overwrite each position in place with
    /// the byte that answered it. An empty buffer asks for nothing and
    /// cannot fail.
    #[verifier::loop_isolation(false)]
    pub fn transfer_in_place(&mut self, bytes: &mut Vec<u8>) -> (r: Result<(), Error>)
        ensures
            final(self).config() == old(self).config(),
            final(bytes)@.len() == old(bytes)@.len(),
            old(self).transcript().is_prefix_of(final(self).transcript()),
            ({
                let ext = final(self).transcript().skip(old(self).transcript().len() as int);
                &&& partial_exchange(ext, old(bytes)@)
                &&& (r is Ok ==> ext.len() == 2 * old(bytes)@.len())
                &&& (forall|j: int|
                    0 <= j < received_of(ext).len() ==> final(bytes)@[j] == received_of(ext)[j])
                &&& (forall|j: int|
                    received_of(ext).len() <= j < old(bytes)@.len() ==> final(bytes)@[j] == old(
                        bytes,
                    )@[j])
            }),
            (r matches Err(e) ==> final(self).faults() == old(self).faults().push(e)),
            r is Ok ==> final(self).faults() == old(self).faults(),
            old(bytes)@.len() == 0 ==> r is Ok,
    {
        let ghost t0 = self.transcript();
        let ghost plan = old(bytes)@;
        proof {
            assert(t0.skip(t0.len() as int) =~= Seq::<BusEvent>::empty());
            assert(plan.take(0) =~= Seq::<u8>::empty());
            assert(t0.is_prefix_of(t0)) by {
                assert(t0 =~= t0.subrange(0, t0.len() as int));
            }
        }
        let n = bytes.len();
        let mut i: usize = 0;
        while i < n
            invariant
                i <= n,
                n == old(bytes)@.len(),
                bytes@.len() == n,
                self.config() == old(self).config(),
                self.faults() == old(self).faults(),
                t0.is_prefix_of(self.transcript()),
                complete_exchange(self.transcript().skip(t0.len() as int), plan.take(i as int)),
                forall|j: int|
                    0 <= j < i ==> bytes@[j] == received_of(
                        self.transcript().skip(t0.len() as int),
                    )[j],
                forall|j: int| i <= j < n ==> bytes@[j] == old(bytes)@[j],
            decreases n - i,
        {
            let ghost t_pre = self.transcript();
            let b = bytes[i];
            proof {
                assert(b == plan[i as int]);
            }
            match self.send_byte_blocking(b) {
                Err(e) => {
                    proof {
                        assert(plan.take(i as int).is_prefix_of(plan));
                        lemma_exchange_widen(
                            t_pre.skip(t0.len() as int),
                            plan.take(i as int),
                            plan,
                        );
                    }
                    return Err(e);
                },
                Ok(_) => {
                },
            }
            match self.receive_byte_blocking() {
                Err(e) => {
                    proof {
                        lemma_exchange_step(t0, t_pre, self.transcript(), plan, i as int, None);
                    }
                    return Err(e);
                },
                Ok(x) => {
                    proof {
                        lemma_exchange_step(t0, t_pre, self.transcript(), plan, i as int, Some(x));
                    }
                    bytes[i] = x;
                },
            }
            i += 1;
        }
        proof {
            assert(plan.take(n as int) =~= plan);
        }
        Ok(())
    }

    /// Wait for all outstanding work to drain. The polled design keeps no
    /// internal queue, so there is never anything to wait for.
    pub fn flush(&mut self) -> (r: Result<(), Error>)
        ensures
            final(self).transcript() == old(self).transcript(),
            final(self).config() == old(self).config(),
            final(self).faults() == old(self).faults(),
            r is Ok,
    {
        Ok(())
    }
}

/// Construction of a bus directly from a controller handle.
pub trait SpiExt: Instance {
    /// Bind this controller and a pin set into a configured bus; see
    /// [`SpiBus::new`].
    fn spi<PINS: Pins<Self>>(self, pins: PINS, mode: Mode, freq: Hertz, rcc: &mut Rcc) -> (bus:
        SpiBus<Self, PINS>)
        requires
            freq.0 > 0,
            clock_ratio(old(rcc).clocks.apb_clk, freq) >= 1,
        ensures
            *final(rcc) == *old(rcc),
            bus.transcript() == self.transcript(),
            bus.config() == initial_config(
                mode,
                divisor_code_spec(clock_ratio(old(rcc).clocks.apb_clk, freq)) as u8,
            ),
            bus.configured(),
            bus.power_events() == self.power_events() + seq![
                PowerEvent::Enabled,
                PowerEvent::Reset,
            ],
            bus.faults() == self.faults(),
            bus.pins_ready(),
    ;
}

impl<SPI: Instance> SpiExt for SPI {
    fn spi<PINS: Pins<SPI>>(self, pins: PINS, mode: Mode, freq: Hertz, rcc: &mut Rcc) -> (bus:
        SpiBus<SPI, PINS>) {
        SpiBus::new(self, pins, mode, freq, rcc)
    }
}

} // verus!
