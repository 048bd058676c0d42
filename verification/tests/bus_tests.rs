use spi_driver::bus::{SpiBus, SpiExt};
use spi_driver::error::{Error, ErrorKind};
use spi_driver::events::BusEvent;
use spi_driver::mock::MockSpi;
use spi_driver::mode::{Mode, Phase, Polarity};
use spi_driver::peripheral::{PowerEvent, Status};
use spi_driver::pins::{NoMiso, NoMosi, NoSck};
use spi_driver::rcc::{Clocks, Rcc};
use spi_driver::time::Hertz;

fn mode_0() -> Mode {
    Mode { polarity: Polarity::IdleLow, phase: Phase::CaptureOnFirstTransition }
}

fn rcc_8mhz() -> Rcc {
    Rcc { clocks: Clocks { apb_clk: Hertz(8_000_000) } }
}

fn make_bus(spi: MockSpi) -> SpiBus<MockSpi, (NoSck, NoMiso, NoMosi)> {
    let mut rcc = rcc_8mhz();
    SpiBus::new(spi, (NoSck, NoMiso, NoMosi), mode_0(), Hertz(1_000_000), &mut rcc)
}

fn blocked_status() -> Status {
    Status { overrun: false, mode_fault: false, crc_error: false, tx_ready: false, rx_ready: false }
}

fn fault_status(overrun: bool, mode_fault: bool, crc_error: bool) -> Status {
    Status { overrun, mode_fault, crc_error, tx_ready: false, rx_ready: false }
}

#[test]
fn new_programs_the_peripheral() {
    let bus = make_bus(MockSpi::new());
    let (spi, _pins) = bus.release();
    assert!(!spi.cfg.ss_output_enabled);
    assert!(spi.cfg.byte_rx_threshold);
    assert_eq!(spi.cfg.frame_bits, 8);
    let w = spi.cfg.control.expect("control register programmed");
    // 8 MHz over 1 MHz is ratio 8: divisor code 0b010
    assert_eq!(w.divisor, 0b010);
    // idle-low, capture-on-first-edge: both bits clear
    assert!(!w.capture_on_second_edge);
    assert!(!w.idle_high);
    assert!(w.master);
    assert!(!w.lsb_first);
    assert!(w.software_slave_management);
    assert!(w.internal_slave_select);
    assert!(!w.rx_only);
    assert!(!w.crc_length_16);
    assert!(!w.bidirectional);
    assert!(!w.bidirectional_output);
    assert!(w.enabled);
    // configuration touches no data: nothing was exchanged
    assert!(spi.events.is_empty());
}

#[test]
fn write_drives_one_cycle_per_byte_against_loopback() {
    // the fresh mock loops back each transmitted byte
    let mut bus = make_bus(MockSpi::new());
    let data = vec![0x10u8, 0x20, 0x30, 0x40, 0x55];
    assert_eq!(bus.write(&data), Ok(()));
    let (spi, _pins) = bus.release();
    // exactly five send+receive cycles, every received byte discarded
    assert_eq!(spi.events.len(), 10);
    for (k, b) in data.iter().enumerate() {
        assert_eq!(spi.events[2 * k], BusEvent::Sent(*b));
        assert_eq!(spi.events[2 * k + 1], BusEvent::Received(*b));
    }
}

#[test]
fn read_sends_filler_and_keeps_answers() {
    let mut spi = MockSpi::new();
    spi.responses = vec![0xAA, 0xBB, 0xCC];
    let mut bus = make_bus(spi);
    let mut buf = vec![0u8; 3];
    assert_eq!(bus.read(&mut buf), Ok(()));
    assert_eq!(buf, vec![0xAA, 0xBB, 0xCC]);
    let (spi, _pins) = bus.release();
    assert_eq!(
        spi.events,
        vec![
            BusEvent::Sent(0),
            BusEvent::Received(0xAA),
            BusEvent::Sent(0),
            BusEvent::Received(0xBB),
            BusEvent::Sent(0),
            BusEvent::Received(0xCC),
        ]
    );
}

#[test]
fn transfer_pads_sends_once_write_side_is_exhausted() {
    let mut spi = MockSpi::new();
    spi.responses = vec![1, 2, 3, 4];
    let mut bus = make_bus(spi);
    let mut rx = vec![0u8; 4];
    let tx = vec![9u8, 8];
    assert_eq!(bus.transfer(&mut rx, &tx), Ok(()));
    assert_eq!(rx, vec![1, 2, 3, 4]);
    let (spi, _pins) = bus.release();
    // max(4, 2) = 4 bytes cross the wire, the last two as zero filler
    assert_eq!(spi.events.len(), 8);
    assert_eq!(spi.events[0], BusEvent::Sent(9));
    assert_eq!(spi.events[2], BusEvent::Sent(8));
    assert_eq!(spi.events[4], BusEvent::Sent(0));
    assert_eq!(spi.events[6], BusEvent::Sent(0));
}

#[test]
fn transfer_discards_reads_once_read_side_is_exhausted() {
    let mut spi = MockSpi::new();
    spi.responses = vec![0x21];
    let mut bus = make_bus(spi);
    let mut rx = vec![0u8; 1];
    let tx = vec![5u8, 6, 7];
    assert_eq!(bus.transfer(&mut rx, &tx), Ok(()));
    // only the first answer lands in the buffer; the rest are discarded
    assert_eq!(rx, vec![0x21]);
    let (spi, _pins) = bus.release();
    // max(1, 3) = 3 bytes cross the wire, all from the write side
    assert_eq!(spi.events.len(), 6);
    assert_eq!(spi.events[0], BusEvent::Sent(5));
    assert_eq!(spi.events[2], BusEvent::Sent(6));
    assert_eq!(spi.events[4], BusEvent::Sent(7));
}

#[test]
fn transfer_in_place_overwrites_with_answers() {
    let mut spi = MockSpi::new();
    spi.responses = vec![11, 22, 33];
    let mut bus = make_bus(spi);
    let mut buf = vec![10u8, 20, 30];
    assert_eq!(bus.transfer_in_place(&mut buf), Ok(()));
    assert_eq!(buf, vec![11, 22, 33]);
    let (spi, _pins) = bus.release();
    assert_eq!(
        spi.events,
        vec![
            BusEvent::Sent(10),
            BusEvent::Received(11),
            BusEvent::Sent(20),
            BusEvent::Received(22),
            BusEvent::Sent(30),
            BusEvent::Received(33),
        ]
    );
}

#[test]
fn overrun_before_readiness_fails_without_advancing() {
    let mut spi = MockSpi::new();
    spi.statuses = vec![fault_status(true, false, false)];
    let mut bus = make_bus(spi);
    assert_eq!(bus.write(&vec![0x01]), Err(Error::Overrun));
    let (spi, _pins) = bus.release();
    assert!(spi.events.is_empty());
}

#[test]
fn mode_fault_before_readiness_fails_without_advancing() {
    let mut spi = MockSpi::new();
    spi.statuses = vec![fault_status(false, true, false)];
    let mut bus = make_bus(spi);
    let mut buf = vec![0u8; 2];
    assert_eq!(bus.read(&mut buf), Err(Error::ModeFault));
    // the buffer position for the failed byte was not advanced
    assert_eq!(buf, vec![0, 0]);
    let (spi, _pins) = bus.release();
    assert!(spi.events.is_empty());
}

#[test]
fn crc_error_before_readiness_fails_without_advancing() {
    let mut spi = MockSpi::new();
    spi.statuses = vec![fault_status(false, false, true)];
    let mut bus = make_bus(spi);
    let mut buf = vec![0x77u8];
    assert_eq!(bus.transfer_in_place(&mut buf), Err(Error::Crc));
    assert_eq!(buf, vec![0x77]);
    let (spi, _pins) = bus.release();
    assert!(spi.events.is_empty());
}

#[test]
fn fault_in_receive_phase_keeps_earlier_bytes() {
    let mut spi = MockSpi::new();
    // byte one exchanges cleanly; byte two sends, then the overrun flag
    // appears while waiting to receive
    spi.responses = vec![0xE1];
    spi.statuses = vec![
        Status { overrun: false, mode_fault: false, crc_error: false, tx_ready: true, rx_ready: true },
        Status { overrun: false, mode_fault: false, crc_error: false, tx_ready: true, rx_ready: true },
        Status { overrun: false, mode_fault: false, crc_error: false, tx_ready: true, rx_ready: false },
        fault_status(true, false, false),
    ];
    let mut bus = make_bus(spi);
    let mut buf = vec![0x01u8, 0x02];
    assert_eq!(bus.transfer_in_place(&mut buf), Err(Error::Overrun));
    // the first position holds its answer; the second was not advanced
    assert_eq!(buf, vec![0xE1, 0x02]);
    let (spi, _pins) = bus.release();
    assert_eq!(
        spi.events,
        vec![BusEvent::Sent(0x01), BusEvent::Received(0xE1), BusEvent::Sent(0x02)]
    );
}

#[test]
fn busy_polls_block_until_readiness() {
    let mut spi = MockSpi::new();
    // three not-ready readings before the script runs out and readiness
    // appears: the write just keeps polling
    spi.statuses = vec![blocked_status(), blocked_status(), blocked_status()];
    let mut bus = make_bus(spi);
    assert_eq!(bus.write(&vec![0x42]), Ok(()));
    let (spi, _pins) = bus.release();
    assert_eq!(spi.events, vec![BusEvent::Sent(0x42), BusEvent::Received(0x42)]);
}

#[test]
fn flush_is_a_no_op() {
    let mut bus = make_bus(MockSpi::new());
    assert_eq!(bus.flush(), Ok(()));
    let (spi, _pins) = bus.release();
    assert!(spi.events.is_empty());
}

#[test]
fn data_size_rewrites_frame_width() {
    let mut bus = make_bus(MockSpi::new());
    bus.data_size(16);
    let (spi, _pins) = bus.release();
    assert_eq!(spi.cfg.frame_bits, 16);
}

#[test]
fn half_duplex_toggles_rewrite_control_bits() {
    let mut bus = make_bus(MockSpi::new());
    bus.half_duplex_enable(true);
    bus.half_duplex_output_enable(true);
    let (spi, _pins) = bus.release();
    let w = spi.cfg.control.expect("control register programmed");
    assert!(w.bidirectional);
    assert!(w.bidirectional_output);
    // the rest of the control word is untouched
    assert!(w.master);
    assert_eq!(w.divisor, 0b010);
}

#[test]
fn release_returns_the_handle_for_reconfiguration() {
    let bus = make_bus(MockSpi::new());
    let (spi, pins) = bus.release();
    // the returned handle and pins rebuild a bus with a new configuration
    let mut rcc = Rcc { clocks: Clocks { apb_clk: Hertz(48_000_000) } };
    let mode = Mode { polarity: Polarity::IdleHigh, phase: Phase::CaptureOnSecondTransition };
    let bus2 = spi.spi(pins, mode, Hertz(1_000_000), &mut rcc);
    let (spi, _pins) = bus2.release();
    let w = spi.cfg.control.expect("control register programmed");
    // ratio 48 gives divisor code 0b101, and both mode bits are now set
    assert_eq!(w.divisor, 0b101);
    assert!(w.capture_on_second_edge);
    assert!(w.idle_high);
}

#[test]
fn new_powers_on_and_resets_exactly_once() {
    let bus = make_bus(MockSpi::new());
    let (spi, _pins) = bus.release();
    assert_eq!(spi.power, vec![PowerEvent::Enabled, PowerEvent::Reset]);
}

#[test]
fn empty_buffers_exchange_nothing_and_succeed() {
    let mut spi = MockSpi::new();
    // even a scripted fault cannot reach an exchange that never polls
    spi.statuses = vec![fault_status(true, false, false)];
    let mut bus = make_bus(spi);
    assert_eq!(bus.write(&vec![]), Ok(()));
    let mut empty_buf: Vec<u8> = vec![];
    assert_eq!(bus.read(&mut empty_buf), Ok(()));
    assert_eq!(bus.transfer_in_place(&mut empty_buf), Ok(()));
    let mut rx: Vec<u8> = vec![];
    assert_eq!(bus.transfer(&mut rx, &vec![]), Ok(()));
    let (spi, _pins) = bus.release();
    assert!(spi.events.is_empty());
}

#[test]
fn fault_record_matches_returned_error() {
    let mut spi = MockSpi::new();
    spi.statuses = vec![fault_status(false, true, false)];
    let mut bus = make_bus(spi);
    assert_eq!(bus.write(&vec![0x01]), Err(Error::ModeFault));
    let (spi, _pins) = bus.release();
    // the returned error is exactly the one fault flag that was observed
    assert_eq!(spi.faults_seen, vec![Error::ModeFault]);
}

#[test]
fn error_kind_maps_to_coarse_taxonomy() {
    assert_eq!(Error::Overrun.kind(), ErrorKind::Overrun);
    assert_eq!(Error::ModeFault.kind(), ErrorKind::ModeFault);
    assert_eq!(Error::ChipSelectFault.kind(), ErrorKind::ChipSelectFault);
    assert_eq!(Error::Crc.kind(), ErrorKind::Other);
}
