use spi_driver::bus::SpiBus;
use spi_driver::delay::NoDelay;
use spi_driver::device::Operation;
use spi_driver::error::Error;
use spi_driver::events::BusEvent;
use spi_driver::mock::{MockCs, MockDelay, MockSpi};
use spi_driver::mode::{Mode, Phase, Polarity};
use spi_driver::peripheral::Status;
use spi_driver::pins::{NoMiso, NoMosi, NoSck};
use spi_driver::rcc::{Clocks, Rcc};
use spi_driver::select::NoCS;
use spi_driver::time::Hertz;

fn make_bus(spi: MockSpi) -> SpiBus<MockSpi, (NoSck, NoMiso, NoMosi)> {
    let mut rcc = Rcc { clocks: Clocks { apb_clk: Hertz(8_000_000) } };
    let mode = Mode { polarity: Polarity::IdleLow, phase: Phase::CaptureOnFirstTransition };
    SpiBus::new(spi, (NoSck, NoMiso, NoMosi), mode, Hertz(1_000_000), &mut rcc)
}

#[test]
fn flash_identification_transaction() {
    // a flash-identification exchange: one command byte out, then three
    // filler bytes out while the part answers with its identifier
    let mut spi = MockSpi::new();
    spi.responses = vec![0x00, 0xC2, 0x20, 0x18];
    let mut dev = make_bus(spi).exclusive(MockCs::new(), MockDelay::new());
    let mut ops = vec![Operation::Write(vec![0x9F]), Operation::Read(vec![0, 0, 0])];
    assert_eq!(dev.transaction(&mut ops), Ok(()));

    // the identifier landed in the read buffer
    match &ops[1] {
        Operation::Read(buf) => assert_eq!(buf, &vec![0xC2, 0x20, 0x18]),
        _ => panic!("operation list reshaped"),
    }

    let (bus, cs, delay) = dev.release();
    let (spi, _pins) = bus.release();
    // exactly four bytes were clocked out: the command and three fillers
    assert_eq!(spi.events.len(), 8);
    assert_eq!(spi.events[0], BusEvent::Sent(0x9F));
    assert_eq!(spi.events[2], BusEvent::Sent(0x00));
    assert_eq!(spi.events[4], BusEvent::Sent(0x00));
    assert_eq!(spi.events[6], BusEvent::Sent(0x00));
    // the configuration the scenario asks for: ratio 8 gives divisor 0b010,
    // idle-low capture-on-first-edge gives both mode bits clear
    let w = spi.cfg.control.expect("control register programmed");
    assert_eq!(w.divisor, 0b010);
    assert!(!w.capture_on_second_edge);
    assert!(!w.idle_high);
    // chip select went low once before the bytes and high once after:
    // asserted for the whole four-byte span, never released in between
    assert_eq!(cs.levels, vec![false, true]);
    // no delay was ever requested
    assert!(delay.log.is_empty());
}

#[test]
fn delay_runs_between_writes_and_nowhere_else() {
    let mut dev = make_bus(MockSpi::new()).exclusive(MockCs::new(), MockDelay::new());
    let mut ops = vec![
        Operation::Write(vec![0x01]),
        Operation::DelayNs(100),
        Operation::Write(vec![0x02]),
    ];
    assert_eq!(dev.transaction(&mut ops), Ok(()));
    let (bus, cs, delay) = dev.release();
    // exactly the listed delay, and only it
    assert_eq!(delay.log, vec![100]);
    let (spi, _pins) = bus.release();
    assert_eq!(spi.events.len(), 4);
    assert_eq!(spi.events[0], BusEvent::Sent(0x01));
    assert_eq!(spi.events[2], BusEvent::Sent(0x02));
    assert_eq!(cs.levels, vec![false, true]);
}

#[test]
fn transaction_runs_every_operation_kind() {
    let mut spi = MockSpi::new();
    spi.responses = vec![0xA1, 0xB1, 0xB2, 0xC1, 0xD1];
    let mut dev = make_bus(spi).exclusive(MockCs::new(), MockDelay::new());
    let mut ops = vec![
        Operation::Read(vec![0]),
        Operation::Transfer(vec![0, 0], vec![0x51]),
        Operation::DelayNs(7),
        Operation::TransferInPlace(vec![0x61]),
        Operation::Write(vec![0x71]),
    ];
    assert_eq!(dev.transaction(&mut ops), Ok(()));
    match &ops[0] {
        Operation::Read(buf) => assert_eq!(buf, &vec![0xA1]),
        _ => panic!("operation list reshaped"),
    }
    match &ops[1] {
        Operation::Transfer(rx, tx) => {
            assert_eq!(rx, &vec![0xB1, 0xB2]);
            assert_eq!(tx, &vec![0x51]);
        },
        _ => panic!("operation list reshaped"),
    }
    match &ops[3] {
        Operation::TransferInPlace(buf) => assert_eq!(buf, &vec![0xC1]),
        _ => panic!("operation list reshaped"),
    }
    let (bus, cs, delay) = dev.release();
    assert_eq!(delay.log, vec![7]);
    let (spi, _pins) = bus.release();
    // 1 + 2 + 0 + 1 + 1 bytes cross the wire
    assert_eq!(spi.events.len(), 10);
    assert_eq!(spi.events[0], BusEvent::Sent(0));
    assert_eq!(spi.events[2], BusEvent::Sent(0x51));
    assert_eq!(spi.events[4], BusEvent::Sent(0));
    assert_eq!(spi.events[6], BusEvent::Sent(0x61));
    assert_eq!(spi.events[8], BusEvent::Sent(0x71));
    assert_eq!(cs.levels, vec![false, true]);
}

#[test]
fn chip_select_failure_to_assert_aborts_before_the_bus() {
    let mut cs = MockCs::new();
    cs.fail_low = true;
    let mut dev = make_bus(MockSpi::new()).exclusive(cs, MockDelay::new());
    let mut ops = vec![Operation::Write(vec![0x01])];
    assert_eq!(dev.transaction(&mut ops), Err(Error::ChipSelectFault));
    let (bus, cs, _delay) = dev.release();
    assert!(cs.levels.is_empty());
    let (spi, _pins) = bus.release();
    assert!(spi.events.is_empty());
}

#[test]
fn chip_select_failure_to_deassert_reports_after_the_bus() {
    let mut cs = MockCs::new();
    cs.fail_high = true;
    let mut dev = make_bus(MockSpi::new()).exclusive(cs, MockDelay::new());
    let mut ops = vec![Operation::Write(vec![0x01])];
    assert_eq!(dev.transaction(&mut ops), Err(Error::ChipSelectFault));
    let (bus, cs, _delay) = dev.release();
    // the line went low and never came back up
    assert_eq!(cs.levels, vec![false]);
    let (spi, _pins) = bus.release();
    assert_eq!(spi.events.len(), 2);
}

#[test]
fn bus_fault_aborts_remaining_operations_and_leaves_select_asserted() {
    let mut spi = MockSpi::new();
    spi.statuses = vec![Status {
        overrun: true,
        mode_fault: false,
        crc_error: false,
        tx_ready: false,
        rx_ready: false,
    }];
    let mut dev = make_bus(spi).exclusive(MockCs::new(), MockDelay::new());
    let mut ops = vec![Operation::Write(vec![0x01]), Operation::DelayNs(50)];
    assert_eq!(dev.transaction(&mut ops), Err(Error::Overrun));
    let (bus, cs, delay) = dev.release();
    // chip select stays asserted on the failure path: recovery is the
    // caller's affair
    assert_eq!(cs.levels, vec![false]);
    // the delay after the failed write never ran
    assert!(delay.log.is_empty());
    let (spi, _pins) = bus.release();
    assert!(spi.events.is_empty());
}

#[test]
fn placeholder_select_and_delay_carry_a_transaction() {
    let mut dev = make_bus(MockSpi::new()).exclusive(NoCS, NoDelay);
    let mut ops = vec![Operation::Write(vec![0x0F]), Operation::DelayNs(10)];
    assert_eq!(dev.transaction(&mut ops), Ok(()));
    let (bus, _cs, _delay) = dev.release();
    let (spi, _pins) = bus.release();
    assert_eq!(spi.events.len(), 2);
}

#[test]
fn delay_only_transaction_on_placeholder_select_cannot_fail() {
    // nothing in a delay-only list touches the bus, and the placeholder
    // chip-select never fails, so the transaction must succeed
    let mut dev = make_bus(MockSpi::new()).exclusive(NoCS, MockDelay::new());
    let mut ops = vec![Operation::DelayNs(5), Operation::DelayNs(6)];
    assert_eq!(dev.transaction(&mut ops), Ok(()));
    let (bus, _cs, delay) = dev.release();
    assert_eq!(delay.log, vec![5, 6]);
    let (spi, _pins) = bus.release();
    assert!(spi.events.is_empty());
}

#[test]
fn empty_transaction_only_cycles_chip_select() {
    let mut dev = make_bus(MockSpi::new()).exclusive(MockCs::new(), MockDelay::new());
    let mut ops: Vec<Operation> = vec![];
    assert_eq!(dev.transaction(&mut ops), Ok(()));
    let (bus, cs, delay) = dev.release();
    assert_eq!(cs.levels, vec![false, true]);
    assert!(delay.log.is_empty());
    let (spi, _pins) = bus.release();
    assert!(spi.events.is_empty());
}
