//! The chip: ports, pins, converters.

use runtime_hal::adc::AdcCapability;
use runtime_hal::addr::{AddrTable, PeriphLabel};
use runtime_hal::chip::{gpio_port_label, Chip};
use runtime_hal::descriptor::{AdcPath, ClockPath, GpioPath, IrqLayout, PageSize};
use runtime_hal::detect::probe::Detected;
use runtime_hal::detect::{descriptor_f103, descriptor_f130, synthesize, Family};
use runtime_hal::error::DescriptorError;
use runtime_hal::reg::Bus;
use runtime_hal::regfile::RegisterFile;

const RCU_BASE: u32 = 0x4002_1000;
const RCU_APB2EN: u32 = 0x18;
const AFIO_PCF0: u32 = 0x4001_0004;

#[test]
fn gpio_selector_matches_the_descriptor() {
    assert_eq!(Chip::from_descriptor(descriptor_f103()).gpio(), GpioPath::ApbCrlCrh);
    assert_eq!(Chip::from_descriptor(descriptor_f130()).gpio(), GpioPath::AhbCtlAfsel);
}

#[test]
fn adc_fruit_is_single_or_dual_by_count() {
    let single = Chip::from_descriptor(descriptor_f130());
    assert!(matches!(single.adc(), Ok(AdcCapability::Single(_))));

    let mut d = descriptor_f103();
    d.adc_count = 2;
    d.addrs.set(PeriphLabel::Adc1, 0x4001_2800);
    let dual = Chip::from_descriptor(d);
    assert!(matches!(dual.adc(), Ok(AdcCapability::Dual { .. })));

    // Two converters claimed where only one was measured: the second base is not there.
    let mut bad = synthesize(&Detected {
        family: Family::F10x,
        flash_kib: 64,
        adv_timers: 1,
        adc_count: 1,
    });
    bad.adc_count = 2;
    assert!(Chip::from_descriptor(bad).adc().is_err());
}

#[test]
fn has_advanced_timer_reflects_descriptor_presence() {
    let f103 = Chip::from_descriptor(descriptor_f103());
    assert!(f103.has_advanced_timer(PeriphLabel::Timer0));
    assert!(!f103.has_advanced_timer(PeriphLabel::Timer7));
    assert!(!f103.has_advanced_timer(PeriphLabel::Gpioa));
    let mut d = descriptor_f103();
    d.addrs.set(PeriphLabel::Timer7, 0x4001_3400);
    let dual = Chip::from_descriptor(d);
    assert!(dual.has_advanced_timer(PeriphLabel::Timer7));
}

#[test]
fn free_jtag_pins_f10x_enables_afio_and_sets_swj_sw_only() {
    let mut bus = RegisterFile::new();
    let chip = Chip::from_descriptor(descriptor_f103());
    assert_eq!(chip.free_jtag_pins(&mut bus), Ok(()));
    assert_eq!(bus.word(RCU_BASE + RCU_APB2EN) & 1, 1);
    assert_eq!(bus.word(AFIO_PCF0) & (0b111 << 24), 0b010 << 24);
}

#[test]
fn free_jtag_pins_f1x0_is_a_noop_and_writes_nothing() {
    let mut bus = RegisterFile::new();
    let chip = Chip::from_descriptor(descriptor_f130());
    assert_eq!(chip.free_jtag_pins(&mut bus), Ok(()));
    assert_eq!(bus.word(RCU_BASE + RCU_APB2EN), 0);
    assert_eq!(bus.word(AFIO_PCF0), 0);
}

#[test]
fn port_getters_resolve_bases_and_enable_clocks_f10x() {
    let mut bus = RegisterFile::new();
    let chip = Chip::from_descriptor(descriptor_f103());
    assert_eq!(chip.gpioa(&mut bus).map(|p| p.base()), Ok(0x4001_0800));
    assert_eq!(chip.gpioc(&mut bus).map(|p| p.base()), Ok(0x4001_1000));
    assert_eq!(chip.gpiod(&mut bus).map(|p| p.base()), Ok(0x4001_1400));
    assert_eq!(chip.gpiof(&mut bus).map(|p| p.base()), Ok(0x4001_1C00));
    let apb2 = bus.word(RCU_BASE + RCU_APB2EN);
    assert_eq!(apb2 & (1 << 2), 1 << 2); // PAEN
    assert_eq!(apb2 & (1 << 4), 1 << 4); // PCEN
}

#[test]
fn port_getters_resolve_bases_and_enable_clocks_f1x0() {
    let mut bus = RegisterFile::new();
    let chip = Chip::from_descriptor(descriptor_f130());
    assert_eq!(chip.gpioa(&mut bus).map(|p| p.base()), Ok(0x4800_0000));
    assert_eq!(chip.gpioc(&mut bus).map(|p| p.base()), Ok(0x4800_0800));
    assert_eq!(chip.gpiof(&mut bus).map(|p| p.base()), Ok(0x4800_1400));
    let ahben = bus.word(RCU_BASE + 0x14);
    assert_eq!(ahben & (1 << 17), 1 << 17); // PAEN
    assert_eq!(ahben & (1 << 19), 1 << 19); // PCEN
}

#[test]
fn split_then_into_push_pull_output_drives_bop_f10x() {
    let mut bus = RegisterFile::new();
    let chip = Chip::from_descriptor(descriptor_f103());
    let gpioa = chip.gpioa(&mut bus).unwrap().split();
    let led = gpioa.pa15.into_push_pull_output(&mut bus);
    assert_eq!(bus.word(0x4001_0800 + 0x04), 0x3u32 << 28);
    led.set_high(&mut bus);
    assert_eq!(bus.word(0x4001_0800 + 0x10), 1 << 15);
    led.set_low(&mut bus);
    assert_eq!(bus.word(0x4001_0800 + 0x10), 1 << (15 + 16));
}

const PB3: u8 = (1 << 4) | 3;
const F10X_GPIOB_BASE: u32 = 0x4001_0C00;
const F1X0_GPIOB_BASE: u32 = 0x4800_0400;
#[test]
fn route_general_pwm_pin_f1x0_sets_afsel_af2() {
    let mut bus = RegisterFile::new();
    let chip = Chip::from_descriptor(descriptor_f130());
    assert_eq!(chip.route_general_pwm_pin(&mut bus, PB3), Ok(()));
    assert_eq!(bus.word(F1X0_GPIOB_BASE + 0x00) & (0x3 << 6), 2 << 6);
    assert_eq!(bus.word(F1X0_GPIOB_BASE + 0x20) & (0xF << 12), 2 << 12);
}

#[test]
fn route_general_pwm_pin_f10x_remaps_timer1_and_sets_crl_af() {
    let mut bus = RegisterFile::new();
    let chip = Chip::from_descriptor(descriptor_f103());
    assert_eq!(chip.route_general_pwm_pin(&mut bus, PB3), Ok(()));
    assert_eq!(bus.word(AFIO_PCF0) & (0b11 << 8), 0b01 << 8);
    assert_eq!(bus.word(F10X_GPIOB_BASE + 0x00) & (0xF << 12), 0xB << 12);
}

#[test]
fn split_then_into_push_pull_output_drives_bop_f1x0() {
    let mut bus = RegisterFile::new();
    let chip = Chip::from_descriptor(descriptor_f130());
    let gpioa = chip.gpioa(&mut bus).unwrap().split();
    let led = gpioa.pa15.into_push_pull_output(&mut bus);
    assert_eq!(bus.word(0x4800_0000 + 0x00), 1u32 << 30);
    assert_eq!(bus.word(0x4800_0000 + 0x08), 3u32 << 30);
    led.set_high(&mut bus);
    assert_eq!(bus.word(0x4800_0000 + 0x18), 1 << 15);
}

fn bare(addrs: AddrTable) -> Chip {
    let mut desc = descriptor_f103();
    desc.addrs = addrs;
    Chip::from_descriptor(desc)
}

#[test]
fn getters_return_the_description() {
    let chip = Chip::from_descriptor(descriptor_f103());
    assert_eq!(*chip.descriptor(), descriptor_f103());
    assert_eq!(chip.clock(), ClockPath::F10xRcc);
    assert_eq!(chip.adc_path(), AdcPath::Dual);
    assert_eq!(chip.irq(), IrqLayout::F10xSeparate);
    assert_eq!(chip.rcu_base(), Ok(RCU_BASE));
    assert_eq!(chip.flash_page(), PageSize::K1);
    assert_eq!(chip.flash_size_bytes(), 65_536);
    assert_eq!(chip.adv_timers(), 1);
    assert_eq!(chip.adc_count(), 2);
    assert_eq!(
        bare(AddrTable::new()).rcu_base(),
        Err(DescriptorError::MissingBase(PeriphLabel::Rcu))
    );
}

#[test]
fn converters_come_single_or_in_pairs() {
    match Chip::from_descriptor(descriptor_f130()).adc() {
        Ok(AdcCapability::Single(adc)) => assert_eq!(adc.base(), 0x4001_2400),
        other => panic!("{:?}", other),
    }
    match Chip::from_descriptor(descriptor_f103()).adc() {
        Ok(AdcCapability::Dual { primary, secondary }) => {
            assert_eq!(primary.base(), 0x4001_2400);
            assert_eq!(secondary.base(), 0x4001_2800);
        }
        other => panic!("{:?}", other),
    }
    assert_eq!(
        bare(AddrTable::new()).adc(),
        Err(DescriptorError::MissingBase(PeriphLabel::Adc0))
    );
    let mut one = AddrTable::new();
    one.set(PeriphLabel::Adc0, 0x4001_2400);
    assert_eq!(
        bare(one).adc(),
        Err(DescriptorError::MissingBase(PeriphLabel::Adc1))
    );
}

#[test]
fn adcs_are_there_in_their_window_only() {
    let chip = Chip::from_descriptor(descriptor_f130());
    assert!(chip.has_adc(PeriphLabel::Adc0));
    assert!(!chip.has_adc(PeriphLabel::Adc1));
    assert!(!chip.has_adc(PeriphLabel::Timer0));
    let mut t = AddrTable::new();
    t.set(PeriphLabel::Adc0, 0x4000_5400);
    assert!(!bare(t).has_adc(PeriphLabel::Adc0));
}

#[test]
fn pin_bytes_name_their_port() {
    assert_eq!(gpio_port_label(0x0F), Ok(PeriphLabel::Gpioa));
    assert_eq!(gpio_port_label(0x10), Ok(PeriphLabel::Gpiob));
    assert_eq!(gpio_port_label(0x2D), Ok(PeriphLabel::Gpioc));
    assert_eq!(gpio_port_label(0x3F), Ok(PeriphLabel::Gpiod));
    assert_eq!(gpio_port_label(0x50), Ok(PeriphLabel::Gpiof));
    for pin in [0x40u8, 0x60, 0xFF] {
        assert_eq!(
            gpio_port_label(pin),
            Err(DescriptorError::MissingBase(PeriphLabel::Gpioa))
        );
    }
}

#[test]
fn an_output_pin_starts_low_and_drives() {
    let mut bus = RegisterFile::new();
    let chip = Chip::from_descriptor(descriptor_f103());
    let mut led = chip.output_pin(&mut bus, PeriphLabel::Gpiob, 9).unwrap();
    assert_eq!(bus.word(0x4001_0C04), 0x30);
    assert_eq!(led.pin(), 9);
    assert!(led.is_set_low());
    led.set_high(&mut bus);
    assert!(led.is_set_high());
    assert_eq!(bus.word(0x4001_0C10), 1 << 9);
}

#[test]
fn a_missing_port_is_refused_and_nothing_is_touched() {
    let mut bus = RegisterFile::new();
    let chip = bare(AddrTable::new());
    let missing = DescriptorError::MissingBase(PeriphLabel::Gpiob);
    assert_eq!(
        chip.output_pin(&mut bus, PeriphLabel::Gpiob, 9).err(),
        Some(missing)
    );
    assert_eq!(chip.gpiob(&mut bus).err(), Some(missing));
    assert_eq!(chip.route_general_pwm_pin(&mut bus, 0x13), Err(missing));
    assert_eq!(chip.route_advanced_pwm_pin(&mut bus, 0x13), Err(missing));
    assert_eq!(chip.input_group([0x13, 0x00, 0x01]).err(), Some(missing));
    assert_eq!(
        chip.free_jtag_pins(&mut bus),
        Err(DescriptorError::MissingBase(PeriphLabel::Rcu))
    );
    let mut ports = AddrTable::new();
    ports.set(PeriphLabel::Gpiob, 0x4001_0C00);
    assert_eq!(
        bare(ports).gpiob(&mut bus).err(),
        Some(DescriptorError::MissingBase(PeriphLabel::Rcu))
    );
    assert_eq!(bus.word(RCU_BASE + RCU_APB2EN), 0);
    assert_eq!(bus.word(0x4001_0C00), 0);
}

#[test]
fn advanced_timer_pins_need_no_remap() {
    let mut bus = RegisterFile::new();
    let chip = Chip::from_descriptor(descriptor_f103());
    assert_eq!(chip.route_advanced_pwm_pin(&mut bus, 0x08), Ok(()));
    assert_eq!(bus.word(RCU_BASE + RCU_APB2EN), 1 << 2);
    assert_eq!(bus.word(0x4001_0804), 0xB);
    assert_eq!(bus.word(AFIO_PCF0), 0);
    let mut bus = RegisterFile::new();
    let chip = Chip::from_descriptor(descriptor_f130());
    assert_eq!(chip.route_advanced_pwm_pin(&mut bus, 0x08), Ok(()));
    assert_eq!(bus.word(RCU_BASE + 0x14), 1 << 17);
    assert_eq!(bus.word(0x4800_0024), 2);
}

#[test]
fn routing_frees_and_remaps_and_leaves_the_rest() {
    let mut bus = RegisterFile::new();
    bus.store(AFIO_PCF0, 0xFFFF_FFFF);
    let chip = Chip::from_descriptor(descriptor_f103());
    assert_eq!(chip.route_general_pwm_pin(&mut bus, 0x13), Ok(()));
    assert_eq!(bus.word(AFIO_PCF0), 0xFAFF_FDFF);
}

#[test]
fn an_input_group_reads_its_own_ports() {
    let mut bus = RegisterFile::new();
    let chip = Chip::from_descriptor(descriptor_f103());
    let group = chip.input_group([0x1B, 0x01, 0x2E]).unwrap();
    bus.store(0x4001_0C08, 1 << 11);
    bus.store(0x4001_0808, 0);
    bus.store(0x4001_1008, 1 << 14);
    assert_eq!(group.read(&mut bus), 0b101);
}
