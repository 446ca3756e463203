//! GPIO: pin configuration, outputs, inputs, ports.

use runtime_hal::descriptor::GpioPath;
use runtime_hal::gpio::{
    configure_af, configure_input, configure_output, read_pin, set_pin, Floating, GpioOutput,
    Input, InputGroup, InputPull, Output, Pin, PinRole, PortAPins, PortBPins, PortCPins, PortPins,
    PullDown, PullUp, PushPull,
};
use runtime_hal::reg::Bus;
use runtime_hal::regfile::RegisterFile;

fn seed() -> RegisterFile {
    RegisterFile::new()
}

const PORT_BASE: u32 = 0x4001_0800; // shape of an F10x GPIOA base; value irrelevant to the mock.

const CTL0: u32 = 0x00;
const CTL1: u32 = 0x04;
const CTL: u32 = 0x00;
const OMODE: u32 = 0x04;
const OSPD: u32 = 0x08;
const PUD: u32 = 0x0C;
const AFSEL0: u32 = 0x20;
const AFSEL1: u32 = 0x24;

fn read(bus: &RegisterFile, off: u32) -> u32 {
    bus.word(PORT_BASE + off)
}

const PA2: u8 = 0x02;
const PA3: u8 = 0x03;

#[test]
fn f10x_tx_pa2_is_af_pp_50mhz_nibble() {
    let mut bus = seed();
    configure_af(&mut bus, PORT_BASE, GpioPath::ApbCrlCrh, PA2, PinRole::Tx);
    assert_eq!(read(&bus, CTL0), 0xB << 8);
    assert_eq!(read(&bus, CTL1), 0);
}

#[test]
fn f10x_rx_pa3_is_floating_input_nibble() {
    let mut bus = seed();
    configure_af(&mut bus, PORT_BASE, GpioPath::ApbCrlCrh, PA3, PinRole::Rx);
    assert_eq!(read(&bus, CTL0), 0x4 << 12);
}

#[test]
fn f10x_tx_pa2_plus_rx_pa3_combined() {
    let mut bus = seed();
    bus.store(PORT_BASE + CTL0, 0x4444_4444);
    configure_af(&mut bus, PORT_BASE, GpioPath::ApbCrlCrh, PA2, PinRole::Tx);
    configure_af(&mut bus, PORT_BASE, GpioPath::ApbCrlCrh, PA3, PinRole::Rx);
    let expected = (0x4444_4444u32 & !(0xFu32 << 8) & !(0xFu32 << 12)) | (0xB << 8) | (0x4 << 12);
    assert_eq!(read(&bus, CTL0), expected);
}

#[test]
fn f10x_high_pin_uses_ctl1() {
    let mut bus = seed();
    let pb10 = (1u8 << 4) | 10;
    configure_af(&mut bus, PORT_BASE, GpioPath::ApbCrlCrh, pb10, PinRole::Tx);
    assert_eq!(read(&bus, CTL1), 0xB << 8);
    assert_eq!(read(&bus, CTL0), 0);
}

#[test]
fn f1x0_tx_pa2_sets_ctl_af_afsel_omode_ospd() {
    let mut bus = seed();
    configure_af(&mut bus, PORT_BASE, GpioPath::AhbCtlAfsel, PA2, PinRole::Tx);
    assert_eq!(read(&bus, CTL), 2 << 4);
    assert_eq!(read(&bus, AFSEL0), 1 << 8);
    assert_eq!(read(&bus, AFSEL1), 0);
    assert_eq!(read(&bus, OMODE) & (1 << 2), 0);
    assert_eq!(read(&bus, OSPD), 3 << 4);
    assert_eq!(read(&bus, PUD) & (0x3 << 4), 0);
}

#[test]
fn f1x0_rx_pa3_is_af_input_no_output_options() {
    let mut bus = seed();
    configure_af(&mut bus, PORT_BASE, GpioPath::AhbCtlAfsel, PA3, PinRole::Rx);
    assert_eq!(read(&bus, CTL), 2 << 6);
    assert_eq!(read(&bus, AFSEL0), 1 << 12);
    assert_eq!(read(&bus, OSPD), 0);
    assert_eq!(read(&bus, OMODE), 0);
    assert_eq!(read(&bus, PUD) & (0x3 << 6), 0);
}

#[test]
fn f1x0_tx_pa2_plus_rx_pa3_combined() {
    let mut bus = seed();
    configure_af(&mut bus, PORT_BASE, GpioPath::AhbCtlAfsel, PA2, PinRole::Tx);
    configure_af(&mut bus, PORT_BASE, GpioPath::AhbCtlAfsel, PA3, PinRole::Rx);
    assert_eq!(read(&bus, CTL), (2 << 4) | (2 << 6));
    assert_eq!(read(&bus, AFSEL0), (1 << 8) | (1 << 12));
    assert_eq!(read(&bus, OSPD), 3 << 4);
    assert_eq!(read(&bus, OMODE), 0);
}

#[test]
fn f1x0_high_pin_uses_afsel1() {
    let mut bus = seed();
    let p9 = 9u8;
    configure_af(&mut bus, PORT_BASE, GpioPath::AhbCtlAfsel, p9, PinRole::Tx);
    assert_eq!(read(&bus, AFSEL1), 1 << 4);
    assert_eq!(read(&bus, AFSEL0), 0);
    assert_eq!(read(&bus, CTL), 2 << 18);
}

const PB6: u8 = (1u8 << 4) | 6;
const PB7: u8 = (1u8 << 4) | 7;
const PA5: u8 = 0x05;
const PA6: u8 = 0x06;
const PA7: u8 = 0x07;

#[test]
fn f10x_i2c_pb6_pb7_are_af_open_drain_nibble() {
    let mut bus = seed();
    configure_af(&mut bus, PORT_BASE, GpioPath::ApbCrlCrh, PB6, PinRole::I2cAfOpenDrain);
    configure_af(&mut bus, PORT_BASE, GpioPath::ApbCrlCrh, PB7, PinRole::I2cAfOpenDrain);
    assert_eq!(read(&bus, CTL0), (0xF << 24) | (0xFu32 << 28));
    assert_eq!(read(&bus, CTL1), 0);
}

#[test]
fn f1x0_i2c_pb6_is_af_open_drain_pullup() {
    let mut bus = seed();
    configure_af(&mut bus, PORT_BASE,
        GpioPath::AhbCtlAfsel,
        PB6,
        PinRole::I2cAfOpenDrain,
    );
    assert_eq!(read(&bus, CTL), 2 << 12);
    assert_eq!(read(&bus, AFSEL0), 1 << 24);
    assert_eq!(read(&bus, AFSEL1), 0);
    assert_eq!(read(&bus, OMODE) & (1 << 6), 1 << 6);
    assert_eq!(read(&bus, OSPD), 3 << 12);
    assert_eq!(read(&bus, PUD) & (0x3 << 12), 1 << 12);
}

#[test]
fn f1x0_i2c_pb6_pb7_combined() {
    let mut bus = seed();
    configure_af(&mut bus, PORT_BASE,
        GpioPath::AhbCtlAfsel,
        PB6,
        PinRole::I2cAfOpenDrain,
    );
    configure_af(&mut bus, PORT_BASE,
        GpioPath::AhbCtlAfsel,
        PB7,
        PinRole::I2cAfOpenDrain,
    );
    assert_eq!(read(&bus, CTL), (2 << 12) | (2 << 14));
    assert_eq!(read(&bus, AFSEL0), (1 << 24) | (1u32 << 28));
    assert_eq!(read(&bus, OMODE), (1 << 6) | (1 << 7));
    assert_eq!(read(&bus, OSPD), (3 << 12) | (3 << 14));
    assert_eq!(read(&bus, PUD), (1 << 12) | (1 << 14));
}

#[test]
fn f1x0_spi_sck_mosi_are_af_pp_af0() {
    let mut bus = seed();
    configure_af(&mut bus, PORT_BASE,
        GpioPath::AhbCtlAfsel,
        PA5,
        PinRole::SpiAfPushPull,
    ); // SCK
    configure_af(&mut bus, PORT_BASE,
        GpioPath::AhbCtlAfsel,
        PA7,
        PinRole::SpiAfPushPull,
    ); // MOSI
    assert_eq!(read(&bus, CTL), (2 << 10) | (2 << 14));
    assert_eq!(read(&bus, AFSEL0), 0);
    assert_eq!(read(&bus, OMODE), 0);
    assert_eq!(read(&bus, OSPD), (3 << 10) | (3 << 14));
    assert_eq!(read(&bus, PUD), 0);
}

#[test]
fn f1x0_spi_miso_is_af_input_af0() {
    let mut bus = seed();
    configure_af(&mut bus, PORT_BASE, GpioPath::AhbCtlAfsel, PA6, PinRole::SpiInput);
    assert_eq!(read(&bus, CTL), 2 << 12);
    assert_eq!(read(&bus, AFSEL0), 0); // AF0
    assert_eq!(read(&bus, OSPD), 0);
    assert_eq!(read(&bus, OMODE), 0);
    assert_eq!(read(&bus, PUD), 0);
}

#[test]
fn f10x_spi_sck_mosi_are_af_pp_nibble() {
    let mut bus = seed();
    configure_af(&mut bus, PORT_BASE, GpioPath::ApbCrlCrh, PA5, PinRole::SpiAfPushPull); // SCK
    configure_af(&mut bus, PORT_BASE, GpioPath::ApbCrlCrh, PA7, PinRole::SpiAfPushPull); // MOSI
    assert_eq!(read(&bus, CTL0), (0xB << 20) | (0xBu32 << 28));
}

#[test]
fn f10x_spi_miso_is_floating_input_nibble() {
    let mut bus = seed();
    configure_af(&mut bus, PORT_BASE, GpioPath::ApbCrlCrh, PA6, PinRole::SpiInput);
    assert_eq!(read(&bus, CTL0), 0x4 << 24);
}

const PA8: u8 = 0x08;
const PA10: u8 = 0x0A;
const PB13: u8 = (1u8 << 4) | 13;

#[test]
fn f1x0_timer_gate_pa8_is_af_pp_af2() {
    let mut bus = seed();
    configure_af(&mut bus, PORT_BASE,
        GpioPath::AhbCtlAfsel,
        PA8,
        PinRole::TimerAfPushPull,
    );
    assert_eq!(read(&bus, CTL), 2 << 16);
    assert_eq!(read(&bus, AFSEL1), F1X0_AF2);
    assert_eq!(read(&bus, AFSEL0), 0);
    assert_eq!(read(&bus, OMODE) & (1 << 8), 0);
    assert_eq!(read(&bus, OSPD), 3 << 16);
    assert_eq!(read(&bus, PUD) & (0x3 << 16), 0);
}

#[test]
fn f1x0_timer_gate_pb13_low_side_is_af_pp_af2() {
    let mut bus = seed();
    configure_af(&mut bus, PORT_BASE,
        GpioPath::AhbCtlAfsel,
        PB13,
        PinRole::TimerAfPushPull,
    );
    assert_eq!(read(&bus, CTL), 2 << 26);
    assert_eq!(read(&bus, AFSEL1), F1X0_AF2 << 20);
    assert_eq!(read(&bus, AFSEL0), 0);
    assert_eq!(read(&bus, OMODE) & (1 << 13), 0);
    assert_eq!(read(&bus, OSPD), 3 << 26);
    assert_eq!(read(&bus, PUD) & (0x3 << 26), 0);
}

const F1X0_AF2: u32 = 2;

const PB3: u8 = (1u8 << 4) | 3;

#[test]
fn f1x0_gen_timer_pb3_is_af_pp_af2() {
    let mut bus = seed();
    configure_af(&mut bus, PORT_BASE,
        GpioPath::AhbCtlAfsel,
        PB3,
        PinRole::GenTimerAfPushPull,
    );
    assert_eq!(read(&bus, CTL), 2 << 6);
    assert_eq!(read(&bus, AFSEL0), F1X0_AF2 << 12);
    assert_eq!(read(&bus, AFSEL1), 0);
    assert_eq!(read(&bus, OMODE) & (1 << 3), 0);
    assert_eq!(read(&bus, OSPD), 3 << 6);
    assert_eq!(read(&bus, PUD) & (0x3 << 6), 0);
}

#[test]
fn f10x_gen_timer_pb3_is_af_pp_nibble() {
    let mut bus = seed();
    configure_af(&mut bus, PORT_BASE,
        GpioPath::ApbCrlCrh,
        PB3,
        PinRole::GenTimerAfPushPull,
    );
    assert_eq!(read(&bus, CTL0), 0xB << 12);
    assert_eq!(read(&bus, CTL1), 0);
}

const F10X_BOP: u32 = 0x10;
const F1X0_BOP: u32 = 0x18;

const PB9: u8 = (1u8 << 4) | 9;

#[test]
fn f10x_output_pb9_is_gp_push_pull_50mhz_nibble() {
    let mut bus = seed();
    configure_output(&mut bus, PORT_BASE, GpioPath::ApbCrlCrh, PB9);
    assert_eq!(read(&bus, CTL1), 0x3 << 4);
    assert_eq!(read(&bus, CTL0), 0);
}

#[test]
fn f10x_output_low_pin_uses_ctl0() {
    let mut bus = seed();
    configure_output(&mut bus, PORT_BASE, GpioPath::ApbCrlCrh, PA2);
    assert_eq!(read(&bus, CTL0), 0x3 << 8);
    assert_eq!(read(&bus, CTL1), 0);
}

#[test]
fn f1x0_output_pb9_sets_ctl_omode_ospd() {
    let mut bus = seed();
    configure_output(&mut bus, PORT_BASE, GpioPath::AhbCtlAfsel, PB9);
    assert_eq!(read(&bus, CTL), 1 << 18);
    assert_eq!(read(&bus, OMODE) & (1 << 9), 0);
    assert_eq!(read(&bus, OSPD), 3 << 18);
    assert_eq!(read(&bus, PUD), 0);
    assert_eq!(read(&bus, AFSEL1), 0);
    assert_eq!(read(&bus, AFSEL0), 0);
}

#[test]
fn set_pin_f10x_uses_bop_set_and_reset_halves() {
    let mut bus = seed();
    set_pin(&mut bus, PORT_BASE, GpioPath::ApbCrlCrh, PB9, true);
    assert_eq!(read(&bus, F10X_BOP), 1 << 9);
    set_pin(&mut bus, PORT_BASE, GpioPath::ApbCrlCrh, PB9, false);
    assert_eq!(read(&bus, F10X_BOP), 1 << (9 + 16));
}

#[test]
fn set_pin_f1x0_uses_bop_at_0x18() {
    let mut bus = seed();
    set_pin(&mut bus, PORT_BASE, GpioPath::AhbCtlAfsel, PB9, true);
    assert_eq!(read(&bus, F1X0_BOP), 1 << 9);
    set_pin(&mut bus, PORT_BASE, GpioPath::AhbCtlAfsel, PB9, false);
    assert_eq!(read(&bus, F1X0_BOP), 1 << (9 + 16));
}

#[test]
fn gpio_output_handle_drives_bop_and_tracks_state_f10x() {
    let mut bus = seed();
    let mut out = GpioOutput::new(PORT_BASE, GpioPath::ApbCrlCrh, PB9);
    assert_eq!(out.is_set_low(), true);
    out.set_high(&mut bus);
    assert_eq!(read(&bus, F10X_BOP), 1 << 9);
    assert_eq!(out.is_set_high(), true);
    out.set_low(&mut bus);
    assert_eq!(read(&bus, F10X_BOP), 1 << (9 + 16));
    assert_eq!(out.is_set_low(), true);
}

#[test]
fn gpio_output_handle_drives_bop_f1x0() {
    let mut bus = seed();
    let mut out = GpioOutput::new(PORT_BASE, GpioPath::AhbCtlAfsel, PB9);
    out.set_high(&mut bus);
    assert_eq!(read(&bus, F1X0_BOP), 1 << 9);
    assert_eq!(out.pin(), PB9);
}

#[test]
fn f10x_timer_gate_pa8_is_af_pp_nibble() {
    let mut bus = seed();
    configure_af(&mut bus, PORT_BASE,
        GpioPath::ApbCrlCrh,
        PA8,
        PinRole::TimerAfPushPull,
    );
    assert_eq!(read(&bus, CTL1), 0xB << 0);
    assert_eq!(read(&bus, CTL0), 0);
}

#[test]
fn f10x_timer_gate_pa10_uses_ctl1_high_nibble() {
    let mut bus = seed();
    configure_af(&mut bus, PORT_BASE,
        GpioPath::ApbCrlCrh,
        PA10,
        PinRole::TimerAfPushPull,
    );
    assert_eq!(read(&bus, CTL1), 0xB << 8);
    assert_eq!(read(&bus, CTL0), 0);
}

#[test]
fn timer_gate_role_matches_spi_drive_only_af_differs() {
    let mut bus = seed();
    configure_af(&mut bus, PORT_BASE,
        GpioPath::AhbCtlAfsel,
        PA8,
        PinRole::TimerAfPushPull,
    );
    let timer_ctl = read(&bus, CTL);
    let timer_ospd = read(&bus, OSPD);
    let timer_afsel1 = read(&bus, AFSEL1);

    bus = seed();
    configure_af(&mut bus, PORT_BASE,
        GpioPath::AhbCtlAfsel,
        PA8,
        PinRole::SpiAfPushPull,
    );
    assert_eq!(timer_ctl, read(&bus, CTL));
    assert_eq!(timer_ospd, read(&bus, OSPD));
    assert_eq!(timer_afsel1, F1X0_AF2);
    assert_eq!(read(&bus, AFSEL1), 0); // SPI AF0
}

#[test]
fn pin_into_push_pull_output_writes_f1x0_ctl_omode_ospd() {
    let mut bus = seed();
    let pin: Pin<Input<Floating>> = make_pin(PORT_BASE, GpioPath::AhbCtlAfsel, 15);
    let _out: Pin<Output<PushPull>> = pin.into_push_pull_output(&mut bus);
    assert_eq!(read(&bus, CTL), 1u32 << 30);
    assert_eq!(read(&bus, OMODE) & (1 << 15), 0);
    assert_eq!(read(&bus, OSPD), 3u32 << 30);
}

#[test]
fn pin_output_set_high_low_drives_bop_f10x() {
    let mut bus = seed();
    let mut out = make_pin(PORT_BASE, GpioPath::ApbCrlCrh, 15).into_push_pull_output(&mut bus);
    out.set_high(&mut bus);
    assert_eq!(read(&bus, F10X_BOP), 1 << 15);
    out.set_low(&mut bus);
    assert_eq!(read(&bus, F10X_BOP), 1 << (15 + 16));
}

#[test]
fn pin_output_is_set_high_reads_back_octl() {
    let mut bus = seed();
    let mut out = make_pin(PORT_BASE, GpioPath::AhbCtlAfsel, 15).into_push_pull_output(&mut bus);
    assert_eq!(out.is_set_low(&mut bus), true); // OCTL still 0
    bus.store(PORT_BASE + 0x14, 1 << 15);
    assert_eq!(out.is_set_high(&mut bus), true);
    assert_eq!(out.is_set_low(&mut bus), false);
}

#[test]
fn split_yields_pins_with_correct_pin_bytes() {
    let mut bus = seed();
    let a = PortAPins::from_port(PORT_BASE, GpioPath::ApbCrlCrh);
    assert_eq!(a.pa15.pin(), 15);
    assert_eq!(a.pa0.pin(), 0);
    let b = PortBPins::from_port(PORT_BASE, GpioPath::ApbCrlCrh);
    assert_eq!(b.pb3.pin(), (1 << 4) | 3);
    let c = PortCPins::from_port(PORT_BASE, GpioPath::AhbCtlAfsel);
    assert_eq!(c.pc13.pin(), (2 << 4) | 13);
}

fn make_pin(base: u32, path: GpioPath, pin: u8) -> Pin<Input<Floating>> {
    Pin::new(base, path, pin)
}

const F10X_ISTAT: u32 = 0x08;
const F1X0_ISTAT: u32 = 0x10;

const PA11: u8 = 0x0B;

#[test]
fn f10x_floating_input_pa11_is_cnf01_nibble_no_octl() {
    let mut bus = seed();
    configure_input(&mut bus, PORT_BASE, GpioPath::ApbCrlCrh, PA11, InputPull::Floating);
    assert_eq!(read(&bus, CTL1), 0x4 << 12);
    assert_eq!(read(&bus, CTL0), 0);
    assert_eq!(read(&bus, F10X_BOP), 0);
}

#[test]
fn f10x_pull_up_input_pa11_is_cnf10_nibble_octl_set() {
    let mut bus = seed();
    configure_input(&mut bus, PORT_BASE, GpioPath::ApbCrlCrh, PA11, InputPull::PullUp);
    assert_eq!(read(&bus, CTL1), 0x8 << 12);
    assert_eq!(read(&bus, F10X_BOP), 1 << 11);
}

#[test]
fn f10x_pull_down_input_pa11_is_cnf10_nibble_octl_clear() {
    let mut bus = seed();
    configure_input(&mut bus, PORT_BASE, GpioPath::ApbCrlCrh, PA11, InputPull::PullDown);
    assert_eq!(read(&bus, CTL1), 0x8 << 12);
    assert_eq!(read(&bus, F10X_BOP), 1 << (11 + 16));
}

#[test]
fn f1x0_floating_input_pa11_is_ctl_input_pud_none() {
    let mut bus = seed();
    configure_input(&mut bus, PORT_BASE, GpioPath::AhbCtlAfsel, PA11, InputPull::Floating);
    assert_eq!(read(&bus, CTL), 0);
    assert_eq!(read(&bus, PUD), 0);
    assert_eq!(read(&bus, OMODE), 0);
    assert_eq!(read(&bus, OSPD), 0);
}

#[test]
fn f1x0_pull_up_input_pa11_is_ctl_input_pud_01() {
    let mut bus = seed();
    bus.store(PORT_BASE + CTL, 0x3 << 22);
    configure_input(&mut bus, PORT_BASE, GpioPath::AhbCtlAfsel, PA11, InputPull::PullUp);
    assert_eq!(read(&bus, CTL), 0);
    assert_eq!(read(&bus, PUD), 1 << 22);
}

#[test]
fn f1x0_pull_down_input_pa11_is_ctl_input_pud_10() {
    let mut bus = seed();
    configure_input(&mut bus, PORT_BASE, GpioPath::AhbCtlAfsel, PA11, InputPull::PullDown);
    assert_eq!(read(&bus, CTL), 0);
    assert_eq!(read(&bus, PUD), 2 << 22);
    assert_eq!(read(&bus, OMODE), 0);
    assert_eq!(read(&bus, OSPD), 0);
}

#[test]
fn read_pin_reads_istat_at_family_offset() {
    let mut bus = seed();
    bus.store(PORT_BASE + F10X_ISTAT, 1 << 11);
    assert!(read_pin(&mut bus, PORT_BASE, GpioPath::ApbCrlCrh, PA11));
    assert!(!read_pin(&mut bus, PORT_BASE, GpioPath::ApbCrlCrh, 0x0A)); // pin 10 low
    bus = seed();
    bus.store(PORT_BASE + F1X0_ISTAT, 1 << 11);
    assert!(read_pin(&mut bus, PORT_BASE, GpioPath::AhbCtlAfsel, PA11));
    assert!(!read_pin(&mut bus, PORT_BASE, GpioPath::AhbCtlAfsel, 0x0A));
}

#[test]
fn input_pin_is_high_is_low_read_istat_f10x() {
    let mut bus = seed();
    let mut pad: Pin<Input<PullDown>> =
    make_pin(PORT_BASE, GpioPath::ApbCrlCrh, PA11).into_pull_down_input(&mut bus);
    assert_eq!(pad.is_low(&mut bus), true);
    assert_eq!(pad.is_high(&mut bus), false);
    bus.store(PORT_BASE + F10X_ISTAT, 1 << 11);
    assert_eq!(pad.is_high(&mut bus), true);
    assert_eq!(pad.is_low(&mut bus), false);
}

#[test]
fn input_pin_is_high_reads_istat_f1x0() {
    let mut bus = seed();
    let mut pad: Pin<Input<PullUp>> =
    make_pin(PORT_BASE, GpioPath::AhbCtlAfsel, PA11).into_pull_up_input(&mut bus);
    bus.store(PORT_BASE + F1X0_ISTAT, 1 << 11);
    assert_eq!(pad.is_high(&mut bus), true);
}

#[test]
fn pin_into_floating_input_writes_f1x0_ctl_input_pud_none() {
    let mut bus = seed();
    let out = make_pin(PORT_BASE, GpioPath::AhbCtlAfsel, 11).into_push_pull_output(&mut bus);
    let _in: Pin<Input<Floating>> = out.into_floating_input(&mut bus);
    assert_eq!(read(&bus, CTL) & (0x3 << 22), 0);
    assert_eq!(read(&bus, PUD) & (0x3 << 22), 0);
}

#[test]
fn width_strict_afsel_is_32_bit() {
    let mut bus = seed();
    let p7 = 7u8;
    configure_af(&mut bus, PORT_BASE, GpioPath::AhbCtlAfsel, p7, PinRole::Tx);
    assert_eq!(read(&bus, AFSEL0), 1u32 << 28);
}

#[test]
fn f1x0_is_set_high_reads_octl_at_0x14_not_pud_at_0x0c() {
    let mut bus = seed();
    let mut out = make_pin(PORT_BASE, GpioPath::AhbCtlAfsel, 5).into_push_pull_output(&mut bus);
    bus.store(PORT_BASE + 0x0C, 1u32 << 5);
    assert!(
        out.is_set_low(&mut bus),
        "F1x0 is_set_high must not read PUD at 0x0C"
    );
    bus.store(PORT_BASE + 0x14, 1u32 << 5);
    assert!(
        out.is_set_high(&mut bus),
        "F1x0 is_set_high must read OCTL at 0x14"
    );
}

#[test]
fn f10x_is_set_high_reads_odr_at_0x0c() {
    let mut bus = seed();
    let mut out = make_pin(PORT_BASE, GpioPath::ApbCrlCrh, 5).into_push_pull_output(&mut bus);
    bus.store(PORT_BASE + 0x0C, 1u32 << 5);
    assert!(
        out.is_set_high(&mut bus),
        "F10x is_set_high must read ODR at 0x0C"
    );
}

#[test]
fn input_group_reads_three_lines_into_code() {
    let mut bus = seed();

    const GPIOA: u32 = 0x4800_0000;
    const GPIOC: u32 = 0x4800_0800;
    let reader = InputGroup::resolve(
        GpioPath::AhbCtlAfsel,
        [(GPIOC, 13), (GPIOA, 1), (GPIOC, 14)],
    );

    bus.store(GPIOC + 0x10, 1 << 13);
    bus.store(GPIOA + 0x10, 1 << 1); // PA1 = 1
    assert_eq!(reader.read(&mut bus), 0b011);

    bus.store(GPIOC + 0x10, (1 << 13) | (1 << 14));
    assert_eq!(reader.read(&mut bus), 0b111);

    bus.store(GPIOC + 0x10, 0);
    bus.store(GPIOA + 0x10, 0);
    assert_eq!(reader.read(&mut bus), 0);
}

#[test]
fn input_group_uses_apb_istat_offset_on_f10x() {
    let mut bus = seed();

    const GPIOC: u32 = 0x4001_1000;
    const GPIOA: u32 = 0x4001_0800;
    let reader =
    InputGroup::resolve(GpioPath::ApbCrlCrh, [(GPIOC, 13), (GPIOA, 1), (GPIOC, 14)]);
    bus.store(GPIOC + 0x08, 1 << 13);
    assert_eq!(reader.read(&mut bus), 0b001);
}
