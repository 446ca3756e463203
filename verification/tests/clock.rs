//! Clock enables and the clock tree.

use runtime_hal::addr::{AddrTable, PeriphLabel};
use runtime_hal::chip::Chip;
use runtime_hal::clock::{
    configure_tree, configure_tree_timeout, enable_adc, enable_general_timer, enable_gpio_port,
    enable_i2c, enable_spi, enable_timer, enable_usart, ClockConfig, ClockSource,
};
use runtime_hal::descriptor::{
    AdcPath, ClockPath, GpioPath, IrqLayout, McuDescriptor, PageSize,
};
use runtime_hal::error::{ClockError, DescriptorError};
use runtime_hal::reg::Bus;
use runtime_hal::regfile::RegisterFile;

const AHBEN: u32 = 0x14;
const APB2EN: u32 = 0x18;
const APB1EN: u32 = 0x1C;
const RCU_BASE: u32 = 0x4002_1000;

fn seed_reset() -> RegisterFile {
    let mut bus = RegisterFile::new();
    bus.store(RCU_BASE + AHBEN, 0);
    bus.store(RCU_BASE + APB2EN, 0);
    bus.store(RCU_BASE + APB1EN, 0);
    bus
}

fn read(bus: &RegisterFile, off: u32) -> u32 {
    bus.word(RCU_BASE + off)
}

#[test]
fn f10x_enable_usart1_sets_apb1en_bit17() {
    let mut bus = seed_reset();
    enable_usart(&mut bus, RCU_BASE, ClockPath::F10xRcc, PeriphLabel::Usart1).unwrap();
    assert_eq!(read(&bus, APB1EN), 1 << 17);
    assert_eq!(read(&bus, APB2EN), 0);
    assert_eq!(read(&bus, AHBEN), 0);
}

#[test]
fn f10x_enable_usart0_sets_apb2en_bit14() {
    let mut bus = seed_reset();
    enable_usart(&mut bus, RCU_BASE, ClockPath::F10xRcc, PeriphLabel::Usart0).unwrap();
    assert_eq!(read(&bus, APB2EN), 1 << 14);
    assert_eq!(read(&bus, APB1EN), 0);
}

#[test]
fn f10x_enable_usart2_sets_apb1en_bit18() {
    let mut bus = seed_reset();
    enable_usart(&mut bus, RCU_BASE, ClockPath::F10xRcc, PeriphLabel::Usart2).unwrap();
    assert_eq!(read(&bus, APB1EN), 1 << 18);
}

#[test]
fn f10x_enable_gpioa_sets_apb2en_bit2() {
    let mut bus = seed_reset();
    enable_gpio_port(&mut bus, RCU_BASE, ClockPath::F10xRcc, PeriphLabel::Gpioa).unwrap();
    assert_eq!(read(&bus, APB2EN), 1 << 2);
    assert_eq!(read(&bus, AHBEN), 0);
}

#[test]
fn f10x_enable_usart1_plus_gpioa_is_two_independent_bits() {
    let mut bus = seed_reset();
    enable_usart(&mut bus, RCU_BASE, ClockPath::F10xRcc, PeriphLabel::Usart1).unwrap();
    enable_gpio_port(&mut bus, RCU_BASE, ClockPath::F10xRcc, PeriphLabel::Gpioa).unwrap();
    assert_eq!(read(&bus, APB1EN), 1 << 17);
    assert_eq!(read(&bus, APB2EN), 1 << 2);
}

#[test]
fn f10x_enable_preserves_other_bits() {
    let mut bus = seed_reset();
    bus.store(RCU_BASE + APB1EN, 1 << 14); // SPI1EN-ish neighbour bit
    enable_usart(&mut bus, RCU_BASE, ClockPath::F10xRcc, PeriphLabel::Usart1).unwrap();
    assert_eq!(read(&bus, APB1EN), (1 << 14) | (1 << 17));
}

#[test]
fn f1x0_enable_usart1_sets_apb1en_bit17() {
    let mut bus = seed_reset();
    enable_usart(&mut bus, RCU_BASE, ClockPath::F1x0Rcu, PeriphLabel::Usart1).unwrap();
    assert_eq!(read(&bus, APB1EN), 1 << 17);
    assert_eq!(read(&bus, AHBEN), 0);
}

#[test]
fn f1x0_enable_usart0_sets_apb2en_bit14() {
    let mut bus = seed_reset();
    enable_usart(&mut bus, RCU_BASE, ClockPath::F1x0Rcu, PeriphLabel::Usart0).unwrap();
    assert_eq!(read(&bus, APB2EN), 1 << 14);
}

#[test]
fn f1x0_has_no_usart2() {
    let mut bus = seed_reset();
    assert_eq!(
        enable_usart(&mut bus, RCU_BASE, ClockPath::F1x0Rcu, PeriphLabel::Usart2),
        Err(DescriptorError::SelectorAddrMismatch)
    );
    assert_eq!(read(&bus, APB1EN), 0);
}

#[test]
fn f1x0_enable_gpioa_sets_ahben_bit17() {
    let mut bus = seed_reset();
    enable_gpio_port(&mut bus, RCU_BASE, ClockPath::F1x0Rcu, PeriphLabel::Gpioa).unwrap();
    assert_eq!(read(&bus, AHBEN), 1 << 17);
    assert_eq!(read(&bus, APB2EN), 0);
}

#[test]
fn f1x0_enable_gpiof_sets_ahben_bit22() {
    let mut bus = seed_reset();
    enable_gpio_port(&mut bus, RCU_BASE, ClockPath::F1x0Rcu, PeriphLabel::Gpiof).unwrap();
    assert_eq!(read(&bus, AHBEN), 1 << 22);
}

#[test]
fn f1x0_has_no_port_e() {
    let mut bus = seed_reset();
    assert_eq!(
        enable_gpio_port(&mut bus, RCU_BASE, ClockPath::F1x0Rcu, PeriphLabel::Gpioe),
        Err(DescriptorError::SelectorAddrMismatch)
    );
    assert_eq!(read(&bus, AHBEN), 0);
}

#[test]
fn f1x0_enable_usart1_plus_gpioa_uses_divergent_registers() {
    let mut bus = seed_reset();
    enable_usart(&mut bus, RCU_BASE, ClockPath::F1x0Rcu, PeriphLabel::Usart1).unwrap();
    enable_gpio_port(&mut bus, RCU_BASE, ClockPath::F1x0Rcu, PeriphLabel::Gpioa).unwrap();
    assert_eq!(read(&bus, APB1EN), 1 << 17);
    assert_eq!(read(&bus, AHBEN), 1 << 17);
    assert_eq!(read(&bus, APB2EN), 0);
}

const CFG0: u32 = 0x04;
const CFG2: u32 = 0x30;

#[test]
fn enable_i2c0_sets_apb1en_bit21_both_families() {
    let mut bus = seed_reset();
    enable_i2c(&mut bus, RCU_BASE, ClockPath::F1x0Rcu, PeriphLabel::I2c0).unwrap();
    assert_eq!(read(&bus, APB1EN), 1 << 21);
    assert_eq!(read(&bus, APB2EN), 0);
    assert_eq!(read(&bus, AHBEN), 0);
}

#[test]
fn enable_i2c1_sets_apb1en_bit22() {
    let mut bus = seed_reset();
    enable_i2c(&mut bus, RCU_BASE, ClockPath::F10xRcc, PeriphLabel::I2c1).unwrap();
    assert_eq!(read(&bus, APB1EN), 1 << 22);
}

#[test]
fn enable_i2c0_plus_gpiob_clock_f1x0() {
    let mut bus = seed_reset();
    enable_gpio_port(&mut bus, RCU_BASE, ClockPath::F1x0Rcu, PeriphLabel::Gpiob).unwrap();
    enable_i2c(&mut bus, RCU_BASE, ClockPath::F1x0Rcu, PeriphLabel::I2c0).unwrap();
    assert_eq!(read(&bus, AHBEN), 1 << 18);
    assert_eq!(read(&bus, APB1EN), 1 << 21);
}

#[test]
fn enable_i2c0_plus_gpiob_clock_f10x() {
    let mut bus = seed_reset();
    enable_gpio_port(&mut bus, RCU_BASE, ClockPath::F10xRcc, PeriphLabel::Gpiob).unwrap();
    enable_i2c(&mut bus, RCU_BASE, ClockPath::F10xRcc, PeriphLabel::I2c0).unwrap();
    assert_eq!(read(&bus, APB2EN), 1 << 3);
    assert_eq!(read(&bus, APB1EN), 1 << 21);
}

#[test]
fn enable_spi0_sets_apb2en_bit12() {
    let mut bus = seed_reset();
    enable_spi(&mut bus, RCU_BASE, ClockPath::F10xRcc, PeriphLabel::Spi0).unwrap();
    assert_eq!(read(&bus, APB2EN), 1 << 12);
    assert_eq!(read(&bus, APB1EN), 0);
}

#[test]
fn enable_spi1_sets_apb1en_bit14() {
    let mut bus = seed_reset();
    enable_spi(&mut bus, RCU_BASE, ClockPath::F1x0Rcu, PeriphLabel::Spi1).unwrap();
    assert_eq!(read(&bus, APB1EN), 1 << 14);
}

#[test]
fn enable_spi0_plus_gpioa_clock_f1x0() {
    let mut bus = seed_reset();
    enable_gpio_port(&mut bus, RCU_BASE, ClockPath::F1x0Rcu, PeriphLabel::Gpioa).unwrap();
    enable_spi(&mut bus, RCU_BASE, ClockPath::F1x0Rcu, PeriphLabel::Spi0).unwrap();
    assert_eq!(read(&bus, AHBEN), 1 << 17); // GPIOA F1x0
    assert_eq!(read(&bus, APB2EN), 1 << 12); // SPI0
}

#[test]
fn enable_adc0_sets_apb2en_bit9_and_prescaler_f10x() {
    let mut bus = seed_reset();
    bus.store(RCU_BASE + CFG0, 0);
    bus.store(RCU_BASE + CFG2, 0);
    enable_adc(&mut bus, RCU_BASE, ClockPath::F10xRcc, PeriphLabel::Adc0).unwrap();
    assert_eq!(read(&bus, APB2EN), 1 << 9);
    assert_eq!(read(&bus, CFG0) & (0b11 << 14), 2 << 14);
    assert_eq!(read(&bus, CFG2), 0);
}

#[test]
fn enable_adc0_sets_apb2en_bit9_prescaler_and_adcsel_f1x0() {
    let mut bus = seed_reset();
    bus.store(RCU_BASE + CFG0, 0);
    bus.store(RCU_BASE + CFG2, 0);
    enable_adc(&mut bus, RCU_BASE, ClockPath::F1x0Rcu, PeriphLabel::Adc0).unwrap();
    assert_eq!(read(&bus, APB2EN), 1 << 9);
    assert_eq!(read(&bus, CFG0) & (0b11 << 14), 2 << 14);
    assert_eq!(read(&bus, CFG2) & (1 << 8), 1 << 8);
}

#[test]
fn enable_adc1_sets_apb2en_bit10_f10x() {
    let mut bus = seed_reset();
    enable_adc(&mut bus, RCU_BASE, ClockPath::F10xRcc, PeriphLabel::Adc1).unwrap();
    assert_eq!(read(&bus, APB2EN), 1 << 10);
}

#[test]
fn bus_enable_preserves_other_bits() {
    let mut bus = seed_reset();
    bus.store(RCU_BASE + APB1EN, 1 << 17); // USART1EN neighbour
    enable_i2c(&mut bus, RCU_BASE, ClockPath::F1x0Rcu, PeriphLabel::I2c0).unwrap();
    assert_eq!(read(&bus, APB1EN), (1 << 17) | (1 << 21));
}

#[test]
fn non_bus_labels_rejected() {
    let mut bus = seed_reset();
    assert_eq!(
        enable_i2c(&mut bus, RCU_BASE, ClockPath::F1x0Rcu, PeriphLabel::Usart1),
        Err(DescriptorError::UnknownSelector)
    );
    assert_eq!(
        enable_spi(&mut bus, RCU_BASE, ClockPath::F1x0Rcu, PeriphLabel::Gpioa),
        Err(DescriptorError::UnknownSelector)
    );
    assert_eq!(
        enable_adc(&mut bus, RCU_BASE, ClockPath::F1x0Rcu, PeriphLabel::I2c0),
        Err(DescriptorError::UnknownSelector)
    );
}

#[test]
fn non_usart_label_rejected() {
    let mut bus = seed_reset();
    assert_eq!(
        enable_usart(&mut bus, RCU_BASE, ClockPath::F10xRcc, PeriphLabel::Gpioa),
        Err(DescriptorError::UnknownSelector)
    );
    assert_eq!(
        enable_gpio_port(&mut bus, RCU_BASE, ClockPath::F10xRcc, PeriphLabel::Usart1),
        Err(DescriptorError::UnknownSelector)
    );
}

#[test]
fn f1x0_enable_timer0_sets_apb2en_bit11() {
    let mut bus = seed_reset();
    enable_timer(&mut bus, RCU_BASE, ClockPath::F1x0Rcu, PeriphLabel::Timer0).unwrap();
    assert_eq!(read(&bus, APB2EN), 1 << 11);
    assert_eq!(read(&bus, APB1EN), 0);
    assert_eq!(read(&bus, AHBEN), 0);
}

#[test]
fn f10x_enable_timer0_sets_apb2en_bit11() {
    let mut bus = seed_reset();
    enable_timer(&mut bus, RCU_BASE, ClockPath::F10xRcc, PeriphLabel::Timer0).unwrap();
    assert_eq!(read(&bus, APB2EN), 1 << 11);
    assert_eq!(read(&bus, APB1EN), 0);
    assert_eq!(read(&bus, AHBEN), 0);
}

#[test]
fn f10x_enable_timer7_sets_apb2en_bit13() {
    let mut bus = seed_reset();
    enable_timer(&mut bus, RCU_BASE, ClockPath::F10xRcc, PeriphLabel::Timer7).unwrap();
    assert_eq!(read(&bus, APB2EN), 1 << 13);
}

#[test]
fn f1x0_has_no_timer7() {
    let mut bus = seed_reset();
    assert_eq!(
        enable_timer(&mut bus, RCU_BASE, ClockPath::F1x0Rcu, PeriphLabel::Timer7),
        Err(DescriptorError::SelectorAddrMismatch)
    );
    assert_eq!(read(&bus, APB2EN), 0);
}

#[test]
fn enable_timer_rejects_non_timer_label() {
    let mut bus = seed_reset();
    assert_eq!(
        enable_timer(&mut bus, RCU_BASE, ClockPath::F10xRcc, PeriphLabel::Usart1),
        Err(DescriptorError::UnknownSelector)
    );
    assert_eq!(
        enable_timer(&mut bus, RCU_BASE, ClockPath::F1x0Rcu, PeriphLabel::Gpioa),
        Err(DescriptorError::UnknownSelector)
    );
    assert_eq!(read(&bus, APB2EN), 0);
}

#[test]
fn enable_timer0_preserves_other_apb2en_bits() {
    let mut bus = seed_reset();
    bus.store(RCU_BASE + APB2EN, 1 << 2);
    enable_timer(&mut bus, RCU_BASE, ClockPath::F10xRcc, PeriphLabel::Timer0).unwrap();
    assert_eq!(read(&bus, APB2EN), (1 << 2) | (1 << 11));
}

#[test]
fn f1x0_enable_general_timer1_sets_apb1en_bit0() {
    let mut bus = seed_reset();
    enable_general_timer(&mut bus, RCU_BASE, ClockPath::F1x0Rcu, PeriphLabel::Timer1).unwrap();
    assert_eq!(read(&bus, APB1EN), 1 << 0);
    assert_eq!(read(&bus, APB2EN), 0);
    assert_eq!(read(&bus, AHBEN), 0);
}

#[test]
fn f10x_enable_general_timer1_sets_apb1en_bit0() {
    let mut bus = seed_reset();
    enable_general_timer(&mut bus, RCU_BASE, ClockPath::F10xRcc, PeriphLabel::Timer1).unwrap();
    assert_eq!(read(&bus, APB1EN), 1 << 0);
    assert_eq!(read(&bus, APB2EN), 0);
    assert_eq!(read(&bus, AHBEN), 0);
}

#[test]
fn enable_general_timer_rejects_advanced_and_non_timer_labels() {
    let mut bus = seed_reset();
    assert_eq!(
        enable_general_timer(&mut bus, RCU_BASE, ClockPath::F10xRcc, PeriphLabel::Timer0),
        Err(DescriptorError::UnknownSelector)
    );
    assert_eq!(
        enable_general_timer(&mut bus, RCU_BASE, ClockPath::F10xRcc, PeriphLabel::Usart1),
        Err(DescriptorError::UnknownSelector)
    );
    assert_eq!(read(&bus, APB1EN), 0);
    assert_eq!(read(&bus, APB2EN), 0);
}

#[test]
fn enable_general_timer1_preserves_other_apb1en_bits() {
    let mut bus = seed_reset();
    bus.store(RCU_BASE + APB1EN, 1 << 17);
    enable_general_timer(&mut bus, RCU_BASE, ClockPath::F1x0Rcu, PeriphLabel::Timer1).unwrap();
    assert_eq!(read(&bus, APB1EN), (1 << 17) | (1 << 0));
}

const FMC_WS: u32 = 0x4002_2000;
const CTL: u32 = 0x00;

const CTL_IRC8MSTB: u32 = 1 << 1;
const CTL_HXTALSTB: u32 = 1 << 17;
const CTL_PLLSTB: u32 = 1 << 25;
const SCSS_PLL: u32 = 0b10 << 2;

fn seed(source: ClockSource) -> RegisterFile {
    let mut bus = RegisterFile::new();
    let stable = match source {
        ClockSource::Irc8m => CTL_IRC8MSTB,
        ClockSource::Hxtal => CTL_HXTALSTB,
    };
    bus.store(RCU_BASE + CTL, stable | CTL_PLLSTB);
    bus.store(RCU_BASE + CFG0, SCSS_PLL);
    bus.store(FMC_WS, 0);
    bus
}

fn default_72m() -> ClockConfig {
    ClockConfig::reference_72m_irc8m()
}

fn chip(path: ClockPath) -> Chip {
    let mut addrs = AddrTable::new();
    addrs.set(PeriphLabel::Rcu, RCU_BASE);
    Chip::from_descriptor(McuDescriptor {
        gpio: if path == ClockPath::F1x0Rcu {
            GpioPath::AhbCtlAfsel
        } else {
            GpioPath::ApbCrlCrh
        },
        clock: path,
        adc: AdcPath::Single,
        irq: IrqLayout::F1x0Grouped,
        addrs,
        flash_page: PageSize::K1,
        flash_kib: 64,
        adv_timers: 1,
        adc_count: 1,
    })
}

#[test]
fn default_72m_tree_programs_expected_registers_f1x0() {
    let mut bus = seed(ClockSource::Irc8m);
    configure_tree(&mut bus, &chip(ClockPath::F1x0Rcu), &default_72m()).expect("valid 72M config");

    assert_eq!(bus.word(FMC_WS) & 0b111, 2);

    let cfg0 = bus.word(RCU_BASE + CFG0);
    let programmed = cfg0 & !SCSS_PLL;
    assert_eq!(programmed, 0x0804_0000 | 0x400 | 0x2, "cfg0 = {cfg0:#010x}");
}

#[test]
fn default_72m_tree_programs_expected_registers_f10x() {
    let mut bus = seed(ClockSource::Irc8m);
    configure_tree(&mut bus, &chip(ClockPath::F10xRcc), &default_72m()).expect("valid 72M config");
    assert_eq!(bus.word(FMC_WS) & 0b111, 2);
    let cfg0 = bus.word(RCU_BASE + CFG0) & !SCSS_PLL;
    assert_eq!(cfg0, 0x0804_0000 | 0x400 | 0x2);
}

#[test]
fn hxtal_source_sets_pllsel() {
    let mut bus = seed(ClockSource::Hxtal);
    let p = ClockConfig {
        source: ClockSource::Hxtal,
        ..default_72m()
    };
    configure_tree(&mut bus, &chip(ClockPath::F10xRcc), &p).expect("valid hxtal 72M config");
    let cfg0 = bus.word(RCU_BASE + CFG0);
    assert_ne!(cfg0 & (1 << 16), 0, "PLLSEL must be set for HXTAL");
}

#[test]
fn wait_states_programmed_first_and_match_profile() {
    let mut bus = seed(ClockSource::Irc8m);
    let p = ClockConfig {
        sysclk_hz: 48_000_000,
        wait_states: 1,
        ..default_72m()
    };
    configure_tree(&mut bus, &chip(ClockPath::F1x0Rcu), &p).expect("valid 48M / 1WS config");
    assert_eq!(bus.word(FMC_WS) & 0b111, 1);
}

fn seed_pll_never_locks() -> RegisterFile {
    let mut bus = RegisterFile::new();
    bus.store(RCU_BASE + CTL, CTL_IRC8MSTB);
    bus.store(RCU_BASE + CFG0, SCSS_PLL);
    bus.store(FMC_WS, 0);
    bus
}

#[test]
fn bounded_variant_returns_err_when_pll_never_locks_and_does_not_hang() {
    let mut bus = seed_pll_never_locks();
    let r = configure_tree_timeout(&mut bus, &chip(ClockPath::F1x0Rcu), &default_72m(), 32);
    assert_eq!(r, Err(ClockError::PllNotLocked));
}

fn seed_source_never_stable() -> RegisterFile {
    let mut bus = RegisterFile::new();
    bus.store(RCU_BASE + CTL, 0); // no IRC8MSTB
    bus.store(RCU_BASE + CFG0, SCSS_PLL);
    bus.store(FMC_WS, 0);
    bus
}

#[test]
fn bounded_variant_times_out_on_unstable_source() {
    let mut bus = seed_source_never_stable();
    let r = configure_tree_timeout(&mut bus, &chip(ClockPath::F10xRcc), &default_72m(), 16);
    assert_eq!(r, Err(ClockError::SourceNotStable));
}

#[test]
fn bounded_variant_ok_and_writes_match_the_unbounded_path() {
    let expected_cfg0 = 0x0804_0000 | 0x400 | 0x2;

    {
        let mut bus = seed(ClockSource::Irc8m);
        configure_tree(&mut bus, &chip(ClockPath::F1x0Rcu), &default_72m()).expect("valid 72M config");
        assert_eq!(bus.word(FMC_WS) & 0b111, 2);
        assert_eq!(bus.word(RCU_BASE + CFG0) & !SCSS_PLL, expected_cfg0);
    }

    {
        let mut bus = seed(ClockSource::Irc8m);
        let r = configure_tree_timeout(&mut bus, &chip(ClockPath::F1x0Rcu), &default_72m(), 1_000);
        assert_eq!(r, Ok(()));
        assert_eq!(bus.word(FMC_WS) & 0b111, 2);
        assert_eq!(bus.word(RCU_BASE + CFG0) & !SCSS_PLL, expected_cfg0);
    }
}

#[test]
fn pll_mul_and_prescalers_encode_correctly() {
    let mut bus = seed(ClockSource::Irc8m);
    let p = ClockConfig {
        sysclk_hz: 48_000_000,
        wait_states: 1,
        source: ClockSource::Irc8m,
        pll_mul: 6,
        ahb_psc: 2,
        apb1_psc: 4,
        apb2_psc: 8,
    };
    configure_tree(&mut bus, &chip(ClockPath::F10xRcc), &p).expect("valid 48M config");
    let cfg0 = bus.word(RCU_BASE + CFG0) & !SCSS_PLL;
    let expected = 0x0010_0000 | 0x80 | 0x3000 | 0x500 | 0x2;
    assert_eq!(
        cfg0, expected,
        "cfg0 = {cfg0:#010x}, expected {expected:#010x}"
    );
}

#[test]
fn validate_for_accepts_the_reference_72m_config() {
    assert_eq!(
        ClockConfig::reference_72m_irc8m().validate_for(ClockPath::F1x0Rcu),
        Ok(())
    );
}

#[test]
fn validate_for_rejects_out_of_range_pll_mul() {
    let p = ClockConfig {
        pll_mul: 40,
        ..ClockConfig::reference_72m_irc8m()
    };
    assert_eq!(
        p.validate_for(ClockPath::F1x0Rcu),
        Err(ClockError::InvalidPll)
    );
}

fn spl_ctl_source_enable(source: ClockSource) -> u32 {
    match source {
        ClockSource::Irc8m => 1 << 0,  // RCU_CTL0_IRC8MEN
        ClockSource::Hxtal => 1 << 16, // RCU_CTL0_HXTALEN
    }
}

fn spl_ahbpsc(div: u16) -> Option<u32> {
    let code = match div {
        1 => 0,
        2 => 8,
        4 => 9,
        8 => 10,
        16 => 11,
        64 => 12,
        128 => 13,
        256 => 14,
        512 => 15,
        _ => return None,
    };
    Some(code << 4)
}

fn spl_apb_code(div: u16) -> Option<u32> {
    Some(match div {
        1 => 0,
        2 => 4,
        4 => 5,
        8 => 6,
        16 => 7,
        _ => return None,
    })
}

fn spl_pllmf(mul: u8) -> Option<u32> {
    let m = mul as u32;
    if (2..=16).contains(&m) {
        Some((m - 2) << 18)
    } else if (17..=32).contains(&m) {
        Some((1 << 27) | ((m - 17) << 18))
    } else {
        None
    }
}

fn spl_pllsel(source: ClockSource) -> u32 {
    match source {
        ClockSource::Irc8m => 0,
        ClockSource::Hxtal => 1 << 16,
    }
}

const SPL_SCS_PLL: u32 = 0b10 << 0;

fn spl_cfg0(cfg: &ClockConfig) -> Option<u32> {
    let ahb = spl_ahbpsc(cfg.ahb_psc)?;
    let apb1 = spl_apb_code(cfg.apb1_psc)? << 8;
    let apb2 = spl_apb_code(cfg.apb2_psc)? << 11;
    let pllmf = spl_pllmf(cfg.pll_mul)?;
    let pllsel = spl_pllsel(cfg.source);
    Some(ahb | apb1 | apb2 | pllmf | pllsel | SPL_SCS_PLL)
}

fn run_and_read(cfg: &ClockConfig, path: ClockPath) -> (u32, u32, u32) {
    let mut bus = seed(cfg.source);
    configure_tree(&mut bus, &chip(path), cfg).expect("valid config must configure");
    let cfg0 = bus.word(RCU_BASE + CFG0) & !SCSS_PLL;
    let ctl = bus.word(RCU_BASE + CTL);
    let ws = bus.word(FMC_WS) & 0b111;
    (cfg0, ctl, ws)
}

#[test]
fn permutation_matrix_cfg0_matches_spl_oracle_both_paths() {
    let sources = [ClockSource::Irc8m, ClockSource::Hxtal];
    let small_ahb = [1u16, 2, 4, 8, 16];
    let apb = [1u16, 2, 4, 8, 16];
    let paths = [ClockPath::F10xRcc, ClockPath::F1x0Rcu];

    let mut checked = 0u32;
    for &source in &sources {
        for pll_mul in 2u8..=32 {
            for &ahb_psc in &small_ahb {
                for &apb1_psc in &apb {
                    for &apb2_psc in &apb {
                        let cfg = ClockConfig {
                            sysclk_hz: 72_000_000,
                            wait_states: 2,
                            source,
                            pll_mul,
                            ahb_psc,
                            apb1_psc,
                            apb2_psc,
                        };
                        for &path in &paths {
                            assert_eq!(
                                cfg.validate_for(path),
                                Ok(()),
                                "swept combo should be valid: {cfg:?} on {path:?}"
                            );
                            let expected_cfg0 =
                            spl_cfg0(&cfg).expect("oracle has all swept fields");
                            let (got_cfg0, got_ctl, got_ws) = run_and_read(&cfg, path);
                            assert_eq!(
                                got_cfg0, expected_cfg0,
                                "CFG0 disagrees with SPL oracle: {cfg:?} on {path:?}: \
                                got {got_cfg0:#010x}, want {expected_cfg0:#010x}"
                            );
                            let want_en = spl_ctl_source_enable(source);
                            assert_eq!(
                                got_ctl & want_en,
                                want_en,
                                "CTL source-enable bit missing: {cfg:?} on {path:?}"
                            );
                            assert_eq!(got_ws, 2, "FMC WSCNT must equal wait_states");
                            checked += 1;
                        }
                    }
                }
            }
        }
    }
    assert_eq!(checked, 2 * 31 * 5 * 5 * 5 * 2, "exhaustive matrix size");
}

fn base() -> ClockConfig {
    ClockConfig::reference_72m_irc8m()
}

#[test]
fn boundary_min_pll_mul_2() {
    let cfg = ClockConfig {
        sysclk_hz: 8_000_000,
        wait_states: 0,
        pll_mul: 2,
        ..base()
    };
    assert_eq!(cfg.validate_for(ClockPath::F1x0Rcu), Ok(()));
    let (got, _, _) = run_and_read(&cfg, ClockPath::F1x0Rcu);
    assert_eq!(got & ((1 << 27) | (0b1111 << 18)), 0, "PLLMF(mul2) = 0");
    assert_eq!(got, spl_cfg0(&cfg).unwrap());
}

#[test]
fn boundary_max_pll_mul_32() {
    let cfg = ClockConfig {
        sysclk_hz: 96_000_000,
        wait_states: 2,
        pll_mul: 32,
        ..base()
    };
    assert_eq!(cfg.validate_for(ClockPath::F10xRcc), Ok(()));
    let (got, _, _) = run_and_read(&cfg, ClockPath::F10xRcc);
    assert_eq!(
        got & ((1 << 27) | (0b1111 << 18)),
        (1 << 27) | (15 << 18),
        "PLLMF(mul32) = PLLMF4 | 15<<18"
    );
    assert_eq!(got, spl_cfg0(&cfg).unwrap());
}

#[test]
fn boundary_pll_mul_16_17_straddle_the_pllmf4_split() {
    for (mul, want) in [(16u8, 14u32 << 18), (17u8, 1 << 27)] {
        let cfg = ClockConfig {
            sysclk_hz: 64_000_000,
            wait_states: 2,
            pll_mul: mul,
            ..base()
        };
        assert_eq!(cfg.validate_for(ClockPath::F1x0Rcu), Ok(()));
        let (got, _, _) = run_and_read(&cfg, ClockPath::F1x0Rcu);
        assert_eq!(got & ((1 << 27) | (0b1111 << 18)), want, "mul {mul} PLLMF");
    }
}

#[test]
fn boundary_every_legal_apb1_psc_value() {
    for &div in &[1u16, 2, 4, 8, 16] {
        let cfg = ClockConfig {
            apb1_psc: div,
            ..base()
        };
        assert_eq!(cfg.validate_for(ClockPath::F1x0Rcu), Ok(()));
        let (got, _, _) = run_and_read(&cfg, ClockPath::F1x0Rcu);
        let want = spl_apb_code(div).unwrap() << 8;
        assert_eq!(got & (0b111 << 8), want, "APB1PSC for /{div}");
        assert_eq!(got, spl_cfg0(&cfg).unwrap());
    }
}

#[test]
fn boundary_every_legal_apb2_psc_value() {
    for &div in &[1u16, 2, 4, 8, 16] {
        let cfg = ClockConfig {
            apb2_psc: div,
            ..base()
        };
        assert_eq!(cfg.validate_for(ClockPath::F10xRcc), Ok(()));
        let (got, _, _) = run_and_read(&cfg, ClockPath::F10xRcc);
        let want = spl_apb_code(div).unwrap() << 11;
        assert_eq!(got & (0b111 << 11), want, "APB2PSC for /{div}");
        assert_eq!(got, spl_cfg0(&cfg).unwrap());
    }
}

#[test]
fn boundary_every_small_ahb_psc_value() {
    for &div in &[1u16, 2, 4, 8, 16] {
        let cfg = ClockConfig {
            ahb_psc: div,
            ..base()
        };
        assert_eq!(cfg.validate_for(ClockPath::F1x0Rcu), Ok(()));
        let (got, _, _) = run_and_read(&cfg, ClockPath::F1x0Rcu);
        let want = spl_ahbpsc(div).unwrap();
        assert_eq!(got & (0b1111 << 4), want, "AHBPSC for /{div}");
    }
}

#[test]
fn boundary_wait_state_thresholds_match_validate_for_bands() {
    let bands = [
        (48_000_000u32, 0u8),
        (48_000_001u32, 1u8),
        (72_000_000u32, 1u8),
    ];
    for (sysclk, min_ws) in bands {
        let ok = ClockConfig {
            sysclk_hz: sysclk,
            wait_states: min_ws,
            ..base()
        };
        assert_eq!(
            ok.validate_for(ClockPath::F1x0Rcu),
            Ok(()),
            "min WS {min_ws} at {sysclk} Hz should be accepted"
        );
        let (_, _, ws) = run_and_read(&ok, ClockPath::F1x0Rcu);
        assert_eq!(
            ws, min_ws as u32,
            "FMC WSCNT must equal accepted wait_states"
        );

        if min_ws > 0 {
            let too_few = ClockConfig {
                wait_states: min_ws - 1,
                ..ok
            };
            assert_eq!(
                too_few.validate_for(ClockPath::F1x0Rcu),
                Err(ClockError::InvalidWaitStates),
                "{} WS at {sysclk} Hz is too few",
                min_ws - 1
            );
        }
    }
}

#[test]
fn boundary_source_switch_irc8m_vs_hxtal() {
    let irc = ClockConfig {
        source: ClockSource::Irc8m,
        ..base()
    };
    let hxt = ClockConfig {
        source: ClockSource::Hxtal,
        ..base()
    };
    assert_eq!(irc.validate_for(ClockPath::F1x0Rcu), Ok(()));
    assert_eq!(hxt.validate_for(ClockPath::F1x0Rcu), Ok(()));

    let (irc_cfg0, irc_ctl, _) = run_and_read(&irc, ClockPath::F1x0Rcu);
    assert_eq!(irc_cfg0 & (1 << 16), 0, "IRC8M clears PLLSEL");
    assert_eq!(irc_ctl & (1 << 0), 1 << 0, "IRC8M sets IRC8MEN");
    assert_eq!(irc_cfg0, spl_cfg0(&irc).unwrap());

    let (hxt_cfg0, hxt_ctl, _) = run_and_read(&hxt, ClockPath::F1x0Rcu);
    assert_eq!(hxt_cfg0 & (1 << 16), 1 << 16, "HXTAL sets PLLSEL");
    assert_eq!(hxt_ctl & (1 << 16), 1 << 16, "HXTAL sets HXTALEN");
    assert_eq!(hxt_cfg0, spl_cfg0(&hxt).unwrap());
}

#[test]
fn large_ahb_psc_matches_spl_oracle() {
    for &div in &[64u16, 128, 256, 512] {
        let cfg = ClockConfig {
            sysclk_hz: 8_000_000,
            wait_states: 0,
            ahb_psc: div,
            ..base()
        };
        assert_eq!(
            cfg.validate_for(ClockPath::F1x0Rcu),
            Ok(()),
            "AHB /{div} is an SPL-legal divisor and validate_for accepts it"
        );
        let want = spl_ahbpsc(div).expect("SPL has a code for /{div}");
        let (got, _, _) = run_and_read(&cfg, ClockPath::F1x0Rcu);
        assert_eq!(
            got & (0b1111 << 4),
            want,
            "AHBPSC for /{div}: configure_tree must program the SPL code, \
            got {:#x}, want {want:#x}",
            got & (0b1111 << 4)
        );
    }
}

fn assert_rejected(cfg: &ClockConfig, want: ClockError) {
    for &path in &[ClockPath::F10xRcc, ClockPath::F1x0Rcu] {
        assert_eq!(
            cfg.validate_for(path),
            Err(want),
            "validate_for({path:?}) should reject {cfg:?} as {want:?}"
        );
        let mut bus = seed(cfg.source);
        assert_eq!(
            configure_tree(&mut bus, &chip(path), cfg),
            Err(want),
            "configure_tree({path:?}) should reject {cfg:?} as {want:?}"
        );
    }
}

#[test]
fn reject_pll_mul_below_range() {
    assert_rejected(
        &ClockConfig {
            pll_mul: 1,
            ..base()
        },
        ClockError::InvalidPll,
    );
}

#[test]
fn reject_pll_mul_above_range() {
    assert_rejected(
        &ClockConfig {
            sysclk_hz: 96_000_000,
            wait_states: 2,
            pll_mul: 33,
            ..base()
        },
        ClockError::InvalidPll,
    );
}

#[test]
fn reject_illegal_ahb_psc() {
    assert_rejected(
        &ClockConfig {
            ahb_psc: 32,
            ..base()
        },
        ClockError::InvalidPrescaler,
    );
    assert_rejected(
        &ClockConfig {
            ahb_psc: 3,
            ..base()
        },
        ClockError::InvalidPrescaler,
    );
}

#[test]
fn reject_illegal_apb1_psc() {
    assert_rejected(
        &ClockConfig {
            apb1_psc: 32,
            ..base()
        },
        ClockError::InvalidPrescaler,
    );
}

#[test]
fn reject_illegal_apb2_psc() {
    assert_rejected(
        &ClockConfig {
            apb2_psc: 64,
            ..base()
        },
        ClockError::InvalidPrescaler,
    );
}

#[test]
fn reject_wait_states_too_few_for_sysclk() {
    for sysclk in [60_000_000u32, 72_000_000] {
        assert_eq!(
            ClockConfig {
                sysclk_hz: sysclk,
                wait_states: 0,
                ..base()
            }
                .validate_for(ClockPath::F1x0Rcu),
            Err(ClockError::InvalidWaitStates),
            "0 WS at {sysclk} Hz is too few on F1x0 (>48 MHz needs >=1 WS)"
        );
    }
    let at_48 = ClockConfig {
        sysclk_hz: 48_000_000,
        wait_states: 0,
        ..base()
    };
    assert_eq!(at_48.validate_for(ClockPath::F1x0Rcu), Ok(()));
    assert_eq!(at_48.validate_for(ClockPath::F10xRcc), Ok(()));
}

#[test]
fn reject_wait_states_above_wscnt_field() {
    assert_rejected(
        &ClockConfig {
            sysclk_hz: 72_000_000,
            wait_states: 8,
            ..base()
        },
        ClockError::InvalidWaitStates,
    );
}

#[test]
fn reject_sysclk_above_part_ceiling() {
    let just_over = |hz: u32| ClockConfig {
        sysclk_hz: hz,
        wait_states: 2,
        ..base()
    };
    assert_eq!(
        just_over(109_000_000).validate_for(ClockPath::F10xRcc),
        Err(ClockError::InvalidWaitStates)
    );
    assert_eq!(
        just_over(108_000_000).validate_for(ClockPath::F10xRcc),
        Ok(())
    );
    assert_eq!(
        just_over(73_000_000).validate_for(ClockPath::F1x0Rcu),
        Err(ClockError::InvalidWaitStates)
    );
    assert_eq!(
        just_over(72_000_000).validate_for(ClockPath::F1x0Rcu),
        Ok(())
    );
    assert_eq!(
        just_over(96_000_000).validate_for(ClockPath::F10xRcc),
        Ok(())
    );
    assert_eq!(
        just_over(96_000_000).validate_for(ClockPath::F1x0Rcu),
        Err(ClockError::InvalidWaitStates)
    );
}

#[test]
fn f10x_is_zero_wait_at_full_clock() {
    let top = ClockConfig {
        sysclk_hz: 108_000_000,
        wait_states: 0,
        ..base()
    };
    assert_eq!(top.validate_for(ClockPath::F10xRcc), Ok(()));
}

#[test]
fn reject_missing_rcu_base_in_configure_tree() {
    let mut bus = seed(ClockSource::Irc8m);
    let addrs = AddrTable::new(); // empty: no Rcu base
    let _ = PeriphLabel::Rcu;
    let chip_no_rcu = Chip::from_descriptor(McuDescriptor {
        gpio: GpioPath::AhbCtlAfsel,
        clock: ClockPath::F1x0Rcu,
        adc: AdcPath::Single,
        irq: IrqLayout::F1x0Grouped,
        addrs,
        flash_page: PageSize::K1,
        flash_kib: 64,
        adv_timers: 1,
        adc_count: 1,
    });
    assert_eq!(
        configure_tree(&mut bus, &chip_no_rcu, &base()),
        Err(ClockError::MissingRcuBase)
    );
}
