//! I2C: timing, bring-up, transfers, recovery, errors, bus clear.

use runtime_hal::addr::{AddrTable, PeriphLabel};
use runtime_hal::chip::Chip;
use runtime_hal::clock::ClockConfig;
use runtime_hal::descriptor::{AdcPath, ClockPath, GpioPath, IrqLayout, McuDescriptor, PageSize};
use runtime_hal::error::{I2cErrorKind as ErrorKind, NoAcknowledgeSource};
use runtime_hal::gpio::{Floating, Input, Pin};
use runtime_hal::i2c::bus_clear::{BusClear, LineAction, BUS_CLEAR_MAX_PULSES};
use runtime_hal::i2c::{
    i2c_input_clock, timing_for, FastDuty, I2c, I2cMode, Operation, CKCFG, CKCFG_CLKC, CKCFG_DTCY,
    CKCFG_FAST, CTL0, CTL0_ACKEN, CTL0_I2CEN, CTL0_POAP, CTL0_SMBEN, CTL0_START, CTL0_STOP, CTL1,
    CTL1_I2CCLK, DATA, RT, SADDR0, STAT0, STAT0_ADDSEND, STAT0_AERR, STAT0_BERR, STAT0_BTC,
    STAT0_LOSTARB, STAT0_RBNE, STAT0_SBSEND, STAT0_TBE, STAT1, STAT1_I2CBSY, STAT1_MASTER,
};
use runtime_hal::reg::Bus;
use runtime_hal::regfile::RegisterFile;

fn bus_clear_seq(
    mut read_sda: impl FnMut() -> bool,
    mut drive_scl: impl FnMut(bool),
    mut drive_sda: impl FnMut(bool),
    mut delay: impl FnMut(),
) -> u32 {
    let mut seq = BusClear::new();
    let mut sda = false;
    loop {
        match seq.advance(sda) {
            LineAction::ReadSda => sda = read_sda(),
            LineAction::Scl(high) => drive_scl(high),
            LineAction::Sda(high) => drive_sda(high),
            LineAction::Pause => delay(),
            LineAction::Done(pulses) => return pulses,
        }
    }
}

const I2C_BASE: u32 = 0x4000_5400;
const GPIOB_BASE: u32 = 0x4001_0C00;
const RCU_BASE: u32 = 0x4002_1000;
const IMU: u8 = 0x68;

fn chip_for(gpio: GpioPath) -> Chip {
    let mut addrs = AddrTable::new();
    addrs.set(PeriphLabel::I2c0, I2C_BASE);
    addrs.set(PeriphLabel::Gpiob, GPIOB_BASE);
    addrs.set(PeriphLabel::Rcu, RCU_BASE);
    let clock = match gpio {
        GpioPath::ApbCrlCrh => ClockPath::F10xRcc,
        GpioPath::AhbCtlAfsel => ClockPath::F1x0Rcu,
    };
    Chip::from_descriptor(McuDescriptor {
        gpio,
        clock,
        adc: AdcPath::Single,
        irq: IrqLayout::F1x0Grouped,
        addrs,
        flash_page: PageSize::K1,
        flash_kib: 64,
        adv_timers: 1,
        adc_count: 1,
    })
}

fn chip() -> Chip {
    chip_for(GpioPath::ApbCrlCrh)
}

fn ref_72m() -> ClockConfig {
    ClockConfig::reference_72m_irc8m()
}

fn pb6_pb7(
    bus: &mut RegisterFile,
    chip: &Chip,
) -> (Pin<Input<Floating>>, Pin<Input<Floating>>) {
    let gpiob = chip.gpiob(bus).unwrap().split();
    (gpiob.pb6, gpiob.pb7)
}

fn new_on(bus: &mut RegisterFile, chip: &Chip, speed_hz: u32, duty: FastDuty) -> I2c {
    let mode = if speed_hz <= 100_000 {
        I2cMode::standard(speed_hz)
    } else {
        I2cMode::fast(speed_hz, duty)
    };
    let pins = pb6_pb7(bus, chip);
    I2c::new(bus, chip, &ref_72m(), PeriphLabel::I2c0, pins, mode).unwrap()
}

fn seed_reset() -> RegisterFile {
    RegisterFile::new()
}

fn r(bus: &RegisterFile, off: u32) -> u32 {
    bus.word(I2C_BASE + off)
}

fn w(bus: &mut RegisterFile, off: u32, v: u32) {
    bus.store(I2C_BASE + off, v);
}

fn seed_stat0_all_ready(bus: &mut RegisterFile) {
    w(bus, STAT0,
        STAT0_SBSEND | STAT0_ADDSEND | STAT0_BTC | STAT0_RBNE | STAT0_TBE,
    );
}

#[test]
fn timing_standard_100k_at_36mhz() {
    let t = timing_for(36_000_000, 100_000, FastDuty::Two);
    assert_eq!(t.i2cclk, 0x24, "I2CCLK = 36 MHz field");
    assert_eq!(t.rt, 0x25, "RT = pclk1_MHz + 1");
    assert_eq!(t.ckcfg, 0xB4, "CKCFG = CLKC, FAST/DTCY clear");
    assert_eq!(t.ckcfg & CKCFG_FAST, 0, "standard mode: FAST clear");
}

#[test]
fn timing_standard_100k_at_8mhz_matches_probe() {
    let t = timing_for(8_000_000, 100_000, FastDuty::Two);
    assert_eq!(t.i2cclk, 8);
    assert_eq!(t.rt, 9);
    assert_eq!(t.ckcfg, 40);
}

#[test]
fn timing_fast_400k_at_36mhz_dtcy2() {
    let t = timing_for(36_000_000, 400_000, FastDuty::Two);
    assert_eq!(t.rt, 11);
    assert_eq!(t.ckcfg, CKCFG_FAST | 0x1E);
    assert_eq!(t.ckcfg & CKCFG_DTCY, 0, "DTCY_2: DTCY clear");
}

#[test]
fn timing_fast_400k_dtcy_16_9_sets_dtcy() {
    let t = timing_for(36_000_000, 400_000, FastDuty::SixteenNine);
    assert_eq!(t.ckcfg & CKCFG_DTCY, CKCFG_DTCY, "DTCY_16/9: DTCY set");
    assert_eq!(t.ckcfg & CKCFG_FAST, CKCFG_FAST);
    assert_eq!(t.ckcfg & CKCFG_CLKC, 3);
}

#[test]
fn i2c_input_clock_from_default_72m_tree_is_36mhz() {
    let p = ref_72m();
    assert_eq!(i2c_input_clock(&p), 36_000_000);
}

#[test]
fn bring_up_programs_timing_mode_and_enable() {
    let mut bus = seed_reset();
    let _dev = new_on(&mut bus, &chip(), 100_000, FastDuty::Two);

    assert_eq!(r(&bus, CTL1) & CTL1_I2CCLK, 0x24, "CTL1 I2CCLK = 36 MHz");
    assert_eq!(r(&bus, RT) & 0x7F, 0x25, "RT = 37");
    assert_eq!(r(&bus, CKCFG), 0xB4, "CKCFG = 180 (100 kHz, standard)");
    let ctl0 = r(&bus, CTL0);
    assert_eq!(ctl0 & CTL0_I2CEN, CTL0_I2CEN, "I2CEN set");
    assert_eq!(ctl0 & CTL0_ACKEN, CTL0_ACKEN, "ACKEN set");
    assert_eq!(ctl0 & CTL0_SMBEN, 0, "SMBEN clear (I2C mode)");
    assert_eq!(
        ctl0 & (CTL0_START | CTL0_STOP),
        0,
        "no START/STOP at bring-up"
    );
    assert_eq!(r(&bus, SADDR0), 0x24, "SADDR0 = own-address register value");
}

#[test]
fn bring_up_fast_400k_sets_fast_bit() {
    let mut bus = seed_reset();
    let _dev = new_on(&mut bus, &chip(), 400_000, FastDuty::Two);
    assert_eq!(
        r(&bus, CKCFG) & CKCFG_FAST,
        CKCFG_FAST,
        "fast mode bit set at 400 kHz"
    );
}

fn gb(bus: &RegisterFile, off: u32) -> u32 {
    bus.word(GPIOB_BASE + off)
}

#[test]
fn new_configures_scl_sda_af_open_drain_f10x() {
    let mut bus = seed_reset();
    let _dev = new_on(&mut bus, &chip_for(GpioPath::ApbCrlCrh), 100_000, FastDuty::Two);
    let ctl0 = gb(&bus, 0x00); // F10X_CTL0
    assert_eq!((ctl0 >> 24) & 0xF, 0xF, "PB6 (SCL) = AF open-drain nibble");
    assert_eq!((ctl0 >> 28) & 0xF, 0xF, "PB7 (SDA) = AF open-drain nibble");
}

#[test]
fn new_configures_scl_sda_af_open_drain_f1x0() {
    let mut bus = seed_reset();
    let _dev = new_on(&mut bus, &chip_for(GpioPath::AhbCtlAfsel), 100_000, FastDuty::Two);
    let ctl = gb(&bus, 0x00); // F1X0_CTL: 2 bits/pin
    assert_eq!((ctl >> (2 * 6)) & 0x3, 2, "PB6 CTL = AF mode");
    assert_eq!((ctl >> (2 * 7)) & 0x3, 2, "PB7 CTL = AF mode");
    let omode = gb(&bus, 0x04); // F1X0_OMODE: 1 bit/pin, 1 = open-drain
    assert_eq!((omode >> 6) & 1, 1, "PB6 OMODE = open-drain");
    assert_eq!((omode >> 7) & 1, 1, "PB7 OMODE = open-drain");
    let ospd = gb(&bus, 0x08); // F1X0_OSPD: 2 bits/pin, 3 = 50 MHz
    assert_eq!((ospd >> (2 * 6)) & 0x3, 3, "PB6 OSPD = 50 MHz");
    assert_eq!((ospd >> (2 * 7)) & 0x3, 3, "PB7 OSPD = 50 MHz");
    let pud = gb(&bus, 0x0C); // F1X0_PUD: 2 bits/pin, 1 = pull-up
    assert_eq!((pud >> (2 * 6)) & 0x3, 1, "PB6 PUD = pull-up");
    assert_eq!((pud >> (2 * 7)) & 0x3, 1, "PB7 PUD = pull-up");
    let afsel0 = gb(&bus, 0x20); // F1X0_AFSEL0: 4 bits/pin, AF1 for I2C0 on port B
    assert_eq!((afsel0 >> (4 * 6)) & 0xF, 1, "PB6 AFSEL = AF1");
    assert_eq!((afsel0 >> (4 * 7)) & 0xF, 1, "PB7 AFSEL = AF1");
}

fn brought_up(bus: &mut RegisterFile) -> I2c {
    new_on(bus, &chip(), 100_000, FastDuty::Two)
}

#[test]
fn write_sends_address_then_bytes_then_stop() {
    let mut bus = seed_reset();
    let dev = brought_up(&mut bus);
    seed_stat0_all_ready(&mut bus);
    dev.write(&mut bus, IMU, &[0x75]).expect("write should succeed");
    assert_eq!(r(&bus, DATA) & 0xFF, 0x75, "data byte written to DATA");
    assert_eq!(r(&bus, CTL0) & CTL0_STOP, CTL0_STOP, "STOP issued");
}

#[test]
fn read_byte_value_path() {
    let mut bus = seed_reset();
    let dev = brought_up(&mut bus);
    w(&mut bus, DATA, 0x2E); // WHO_AM_I value the device would return.
    assert_eq!(dev.receive(&mut bus), 0x2E, "receive() returns the DATA byte");
}

#[test]
fn read_single_byte_acks_and_stops() {
    let mut bus = seed_reset();
    let dev = brought_up(&mut bus);
    seed_stat0_all_ready(&mut bus);
    let mut buf = [0u8; 1];
    dev.read(&mut bus, IMU, &mut buf).expect("read should succeed");
    assert_eq!(
        r(&bus, DATA) & 0xFF,
        ((IMU as u32) << 1) | 1,
        "address byte has R/W bit set"
    );
    assert_eq!(
        r(&bus, CTL0) & CTL0_STOP,
        CTL0_STOP,
        "single-byte read issues STOP"
    );
    assert_eq!(
        r(&bus, CTL0) & CTL0_ACKEN,
        CTL0_ACKEN,
        "ACK re-enabled for next transfer"
    );
}

#[test]
fn write_read_register_pointer_then_byte() {
    let mut bus = seed_reset();
    let dev = brought_up(&mut bus);
    seed_stat0_all_ready(&mut bus);
    dev.write_read(&mut bus, IMU, &[0x75], &mut [0u8; 1])
        .expect("write_read should succeed");
    assert_eq!(
        r(&bus, CTL0) & CTL0_STOP,
        CTL0_STOP,
        "write_read terminates with STOP"
    );
}

#[test]
fn transaction_write_then_read_is_repeated_start() {
    let mut bus = seed_reset();
    let dev = brought_up(&mut bus);
    seed_stat0_all_ready(&mut bus);
    let mut ops = vec![Operation::Write(vec![0x06]), Operation::Read(vec![0u8; 1])];
    dev.transaction(&mut bus, IMU, &mut ops)
        .expect("transaction should succeed");
    assert_eq!(r(&bus, CTL0) & CTL0_STOP, CTL0_STOP, "final read STOPs");
}

#[test]
fn zero_length_write_is_a_presence_check() {
    let mut bus = seed_reset();
    let dev = brought_up(&mut bus);
    seed_stat0_all_ready(&mut bus);
    dev.write(&mut bus, IMU, &[]).expect("empty write should succeed");
    assert_eq!(r(&bus, CTL0) & CTL0_STOP, CTL0_STOP);
}

#[test]
fn read_burst_14_solution_b_completes_and_stops() {
    let mut bus = seed_reset();
    let dev = brought_up(&mut bus);
    seed_stat0_all_ready(&mut bus);
    let mut buf = [0u8; 14];
    dev.read(&mut bus, IMU, &mut buf)
        .expect("14-byte burst should succeed");
    let ctl0 = r(&bus, CTL0);
    assert_eq!(ctl0 & CTL0_STOP, CTL0_STOP, "burst read issues STOP");
    assert_eq!(
        ctl0 & CTL0_ACKEN,
        CTL0_ACKEN,
        "ACK re-enabled for next transfer"
    );
    assert_eq!(ctl0 & CTL0_POAP, 0, "POAP not used for N>2");
}

#[test]
fn read_two_bytes_restores_poap_and_stops() {
    let mut bus = seed_reset();
    let dev = brought_up(&mut bus);
    seed_stat0_all_ready(&mut bus);
    let mut buf = [0u8; 2];
    dev.read(&mut bus, IMU, &mut buf).expect("2-byte read should succeed");
    let ctl0 = r(&bus, CTL0);
    assert_eq!(ctl0 & CTL0_STOP, CTL0_STOP, "N=2 read issues STOP");
    assert_eq!(
        ctl0 & CTL0_POAP,
        0,
        "POAP restored (cleared) after the transfer"
    );
    assert_eq!(ctl0 & CTL0_ACKEN, CTL0_ACKEN, "ACK re-enabled");
}

#[test]
fn failed_transfer_clears_sticky_errors_and_reinits() {
    let mut bus = seed_reset();
    let dev = brought_up(&mut bus);
    w(&mut bus, CKCFG, 0);
    w(&mut bus, STAT0, STAT0_BERR);
    let e = dev.write(&mut bus, IMU, &[0x00]).unwrap_err();
    assert_eq!(e.kind(), ErrorKind::Bus);
    assert_eq!(r(&bus, STAT0) & STAT0_BERR, 0, "sticky BERR cleared by recovery");
    let ctl0 = r(&bus, CTL0);
    assert_eq!(
        ctl0 & (CTL0_START | CTL0_STOP),
        0,
        "pending START/STOP request cleared by the SRESET reinit"
    );
    assert_eq!(ctl0 & CTL0_I2CEN, CTL0_I2CEN, "block re-enabled");
    assert_eq!(ctl0 & CTL0_ACKEN, CTL0_ACKEN, "ACK posture restored");
    assert_eq!(r(&bus, CKCFG), 0xB4, "timing reprogrammed by the reinit");
}

#[test]
fn stuck_busy_fresh_transfer_fails_bus_after_sreset() {
    let mut bus = seed_reset();
    let dev = brought_up(&mut bus);
    w(&mut bus, CKCFG, 0); // observable reinit, as above
    w(&mut bus, STAT1, STAT1_I2CBSY);
    let e = dev.write(&mut bus, IMU, &[0x00]).unwrap_err();
    assert_eq!(e.kind(), ErrorKind::Bus);
    assert_eq!(
        r(&bus, CKCFG),
        0xB4,
        "wedge recovery SRESET-reinit reprogrammed the timing"
    );
    assert_eq!(r(&bus, CTL0) & CTL0_I2CEN, CTL0_I2CEN, "block re-enabled");
}

#[test]
fn non_fresh_read_skips_the_busy_gate() {
    let mut bus = seed_reset();
    let dev = brought_up(&mut bus);
    w(&mut bus, STAT1, STAT1_I2CBSY | STAT1_MASTER);
    seed_stat0_all_ready(&mut bus);
    let mut buf = [0u8; 1];
    dev.read_bytes(&mut bus, IMU, &mut buf, false)
        .expect("non-fresh read must not busy-gate");
    assert_eq!(r(&bus, CTL0) & CTL0_STOP, CTL0_STOP, "read still STOPs");
}

#[test]
fn berr_maps_to_bus() {
    let mut bus = seed_reset();
    let dev = brought_up(&mut bus);
    w(&mut bus, STAT0, STAT0_BERR);
    let e = dev.write(&mut bus, IMU, &[0x00]).unwrap_err();
    assert_eq!(e.kind(), ErrorKind::Bus);
}

#[test]
fn lostarb_maps_to_arbitration_loss() {
    let mut bus = seed_reset();
    let dev = brought_up(&mut bus);
    w(&mut bus, STAT0, STAT0_LOSTARB);
    let e = dev.write(&mut bus, IMU, &[0x00]).unwrap_err();
    assert_eq!(e.kind(), ErrorKind::ArbitrationLoss);
}

#[test]
fn aerr_during_address_maps_to_nack_address() {
    let mut bus = seed_reset();
    let dev = brought_up(&mut bus);
    w(&mut bus, STAT0, STAT0_SBSEND | STAT0_AERR);
    let e = dev.write(&mut bus, IMU, &[0x00]).unwrap_err();
    assert_eq!(
        e.kind(),
        ErrorKind::NoAcknowledge(NoAcknowledgeSource::Address)
    );
}

#[test]
fn aerr_during_data_maps_to_nack_data() {
    let mut bus = seed_reset();
    let dev = brought_up(&mut bus);
    w(&mut bus, STAT0, STAT0_SBSEND | STAT0_ADDSEND | STAT0_AERR);
    let e = dev.write(&mut bus, IMU, &[0x00]).unwrap_err();
    assert_eq!(
        e.kind(),
        ErrorKind::NoAcknowledge(NoAcknowledgeSource::Data)
    );
}

#[test]
fn timeout_maps_to_other() {
    let mut bus = seed_reset();
    let dev = brought_up(&mut bus);
    let e = dev.write(&mut bus, IMU, &[0x00]).unwrap_err();
    assert_eq!(e.kind(), ErrorKind::Other);
}

#[derive(Debug, Clone, Copy, PartialEq, Eq)]
enum Ev {
    Scl(bool),
    Sda(bool),
}

#[test]
fn bus_clear_clean_bus_issues_no_pulses_and_no_stop() {
    let events = core::cell::RefCell::new(Vec::<Ev>::new());
    let n = bus_clear_seq(
            || true,
        |high| events.borrow_mut().push(Ev::Scl(high)),
        |high| events.borrow_mut().push(Ev::Sda(high)),
            || {},
    );
    assert_eq!(n, 0, "a clean bus issues zero pulses");
    assert!(
        !events
            .borrow()
            .iter()
            .any(|e| matches!(e, Ev::Scl(false) | Ev::Sda(false))),
        "clean bus must not drive either line low: {:?}",
        events.borrow()
    );
}

#[test]
fn bus_clear_stuck_bus_issues_the_full_bound() {
    let mut scl_low = 0u32;
    let n = bus_clear_seq(
            || false,
        |high| {
            if !high {
                scl_low += 1;
            }
        },
        |_| {},
            || {},
    );
    assert_eq!(
        n, BUS_CLEAR_MAX_PULSES,
        "a never-releasing slave hits the 9-pulse bound"
    );
    assert_eq!(scl_low, BUS_CLEAR_MAX_PULSES, "one SCL low edge per pulse");
}

#[test]
fn bus_clear_stops_as_soon_as_sda_releases() {
    for release_at in 1..=BUS_CLEAR_MAX_PULSES {
        let mut call = 0u32;
        let mut scl_low = 0u32;
        let n = bus_clear_seq(
                || {
                let high = call >= release_at;
                call += 1;
                high
            },
            |high| {
                if !high {
                    scl_low += 1;
                }
            },
            |_| {},
                || {},
        );
        assert_eq!(n, release_at - 1, "stops the pulse train when SDA releases");
        assert!(n < BUS_CLEAR_MAX_PULSES);
        assert_eq!(scl_low, n, "one SCL low edge per issued pulse");
    }
}

#[test]
fn bus_clear_generates_a_trailing_stop_after_recovery() {
    let events = core::cell::RefCell::new(Vec::<Ev>::new());
    let n = bus_clear_seq(
            || false,
        |high| events.borrow_mut().push(Ev::Scl(high)),
        |high| events.borrow_mut().push(Ev::Sda(high)),
            || {},
    );
    assert_eq!(n, BUS_CLEAR_MAX_PULSES);
    let ev = events.borrow();
    let tail: Vec<Ev> = ev.iter().rev().take(3).rev().copied().collect();
    assert_eq!(
        tail,
        vec![Ev::Scl(true), Ev::Sda(false), Ev::Sda(true)],
        "STOP = SDA low->high while SCL is high: {ev:?}"
    );
}

#[test]
fn a_long_read_takes_every_byte() {
    let mut bus = seed_reset();
    let dev = brought_up(&mut bus);
    seed_stat0_all_ready(&mut bus);
    for len in 1..6usize {
        let mut buf = vec![0u8; len];
        w(&mut bus, CTL0, CTL0_I2CEN | CTL0_POAP);
        dev.read(&mut bus, IMU, &mut buf).expect("read should succeed");
        assert_eq!(buf, vec![(IMU << 1) | 1; len]);
        let ctl0 = r(&bus, CTL0);
        assert_eq!(ctl0 & CTL0_STOP, CTL0_STOP);
        assert_eq!(ctl0 & CTL0_ACKEN, CTL0_ACKEN);
        assert_eq!(ctl0 & CTL0_POAP, if len == 2 { 0 } else { CTL0_POAP });
    }
}

#[test]
fn an_empty_read_is_over_at_once() {
    let mut bus = seed_reset();
    let dev = brought_up(&mut bus);
    let before = r(&bus, CTL0);
    assert_eq!(dev.read(&mut bus, IMU, &mut []), Ok(()));
    assert_eq!(r(&bus, CTL0), before);
}

#[test]
fn a_transaction_fills_its_reads_and_stops_at_the_end() {
    let mut bus = seed_reset();
    let dev = brought_up(&mut bus);
    seed_stat0_all_ready(&mut bus);
    let mut ops = vec![
        Operation::Write(vec![1, 2]),
        Operation::Read(vec![0u8; 3]),
        Operation::Write(vec![4]),
    ];
    assert_eq!(dev.transaction(&mut bus, IMU, &mut ops), Ok(()));
    assert_eq!(
        ops,
        vec![
            Operation::Write(vec![1, 2]),
            Operation::Read(vec![(IMU << 1) | 1; 3]),
            Operation::Write(vec![4]),
        ]
    );
    assert_eq!(r(&bus, DATA), 4);
    assert_eq!(r(&bus, CTL0) & CTL0_STOP, CTL0_STOP);
    assert_eq!(dev.transaction(&mut bus, IMU, &mut vec![]), Ok(()));
}

#[test]
fn a_failed_operation_ends_a_transaction() {
    let mut bus = seed_reset();
    let dev = brought_up(&mut bus);
    w(&mut bus, STAT0, STAT0_SBSEND | STAT0_AERR);
    let mut ops = vec![Operation::Write(vec![1]), Operation::Read(vec![9u8; 2])];
    let e = dev.transaction(&mut bus, IMU, &mut ops).unwrap_err();
    assert_eq!(
        e.kind(),
        ErrorKind::NoAcknowledge(NoAcknowledgeSource::Address)
    );
    assert_eq!(ops[1], Operation::Read(vec![9u8; 2]));
}

#[test]
fn a_missing_block_is_refused() {
    let mut bus = seed_reset();
    let chip = chip();
    let pins = pb6_pb7(&mut bus, &chip);
    let refused = I2c::new(
        &mut bus,
        &chip,
        &ref_72m(),
        PeriphLabel::I2c1,
        pins,
        I2cMode::standard(100_000),
    );
    assert!(refused.is_err());

    // A block that is not there is refused whatever the speed.
    let pins = pb6_pb7(&mut bus, &chip);
    let refused = I2c::new(
        &mut bus,
        &chip,
        &ref_72m(),
        PeriphLabel::I2c1,
        pins,
        I2cMode::standard(0),
    );
    assert!(refused.is_err());
}

#[test]
fn timing_clock_field_is_clamped_both_ways() {
    let slow = timing_for(1_000_000, 100_000, FastDuty::Two);
    assert_eq!((slow.i2cclk, slow.ckcfg, slow.rt), (2, 5, 2));
    let slower = timing_for(500_000, 100_000, FastDuty::Two);
    assert_eq!((slower.i2cclk, slower.ckcfg, slower.rt), (2, 4, 2));
    let fast_mode = timing_for(1_000_000, 400_000, FastDuty::Two);
    assert_eq!((fast_mode.i2cclk, fast_mode.ckcfg, fast_mode.rt), (2, 0x8001, 1));
    assert_eq!(timing_for(2_000_000, 100_000, FastDuty::Two).i2cclk, 2);
    assert_eq!(timing_for(3_000_000, 100_000, FastDuty::Two).i2cclk, 3);
    assert_eq!(timing_for(72_000_000, 100_000, FastDuty::Two).i2cclk, 0x48);
    assert_eq!(timing_for(108_000_000, 100_000, FastDuty::Two).i2cclk, 0x48);
}
