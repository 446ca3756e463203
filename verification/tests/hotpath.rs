//! The motor hot path: the bridge, the injected converter, the hall sensors.

use runtime_hal::addr::{AddrTable, PeriphLabel};
use runtime_hal::chip::Chip;
use runtime_hal::config::{
    AdcClockDiv, BreakConfig, ClockDiv, InjectedAdcConfig, InjectedChannel, OcMode, PwmAlign,
    PwmChannelConfig, PwmConfig, TimerTriggerLink, TrgoSource,
};
use runtime_hal::descriptor::{AdcPath, ClockPath, GpioPath, IrqLayout, McuDescriptor, PageSize};
use runtime_hal::error::{AdcError, DescriptorError, HotPathError, PwmError};
use runtime_hal::hotpath::arming::ArmGate;
use runtime_hal::hotpath::hall::HallReader;
use runtime_hal::hotpath::{
    ComplementaryPwm, InjectedAdcController, InjectedHandle, PwmController, PwmHandle,
    TriggeredAdc, CCHP_MOE, TIMER_CAR, TIMER_CCHP, TIMER_CH0CV, TIMER_CH1CV, TIMER_CH2CV,
    TIMER_CH3CV,
};
use runtime_hal::reg::Bus;
use runtime_hal::regfile::RegisterFile;
use runtime_hal::timer::PwmTimer;

fn chip_with(addrs: AddrTable) -> Chip {
    Chip::from_descriptor(McuDescriptor {
        gpio: GpioPath::AhbCtlAfsel,
        clock: ClockPath::F1x0Rcu,
        adc: AdcPath::Single,
        irq: IrqLayout::F1x0Grouped,
        addrs,
        flash_page: PageSize::K1,
        flash_kib: 64,
        adv_timers: 1,
        adc_count: 1,
    })
}

fn timer0_chip() -> Chip {
    let mut a = AddrTable::new();
    a.set(PeriphLabel::Timer0, TIMER0_BASE);
    chip_with(a)
}

fn adc0_chip() -> Chip {
    let mut a = AddrTable::new();
    a.set(PeriphLabel::Adc0, ADC0_BASE);
    chip_with(a)
}

fn reference_config() -> PwmConfig {
    let ch = |high: u8, low: u8| PwmChannelConfig {
        high,
        low,
        polarity: true,
        idle_high: true,
        idle_high_n: true,
    };
    PwmConfig {
        timer: PeriphLabel::Timer0,
        channels: [ch(0x08, 0x1D), ch(0x09, 0x1E), ch(0x0A, 0x1F)],
        period: 2250,
        prescaler: 0,
        dead_time: 0x1C,
        brk: BreakConfig {
            enabled: false,
            level: false,
        },
        trigger_compare: 2249,
        align: PwmAlign::Center2,
        arse: true,
        trigger_oc_mode: OcMode::Pwm0,
        trigger_ch_enable: false,
        crep: 0,
        ckdiv: ClockDiv::Div2,
        trgo_src: TrgoSource::Update,
    }
}

const TIMER0_BASE: u32 = 0x4001_2C00;
const ADC0_BASE: u32 = 0x4001_2400;

#[test]
fn timer0_register_offsets_match_spl() {
    assert_eq!(TIMER_CH0CV, 0x34);
    assert_eq!(TIMER_CH1CV, 0x38);
    assert_eq!(TIMER_CH2CV, 0x3C);
    assert_eq!(TIMER_CH3CV, 0x40);
    assert_eq!(TIMER_CAR, 0x2C);
    assert_eq!(TIMER_CCHP, 0x44);
    assert_eq!(TIMER_CH1CV - TIMER_CH0CV, 0x04);
    assert_eq!(TIMER_CH2CV - TIMER_CH1CV, 0x04);
    assert_eq!(TIMER_CH3CV - TIMER_CH2CV, 0x04);
    assert_eq!(CCHP_MOE, 1 << 15);
}

#[test]
fn set_duties_writes_three_compare_registers() {
    let mut bus = RegisterFile::new();

    let h = PwmHandle::new(TIMER0_BASE, 2250);
    h.set_duties(&mut bus, [100, 200, 300]).unwrap();

    assert_eq!(bus.word(TIMER0_BASE + TIMER_CH0CV), 100);
    assert_eq!(bus.word(TIMER0_BASE + TIMER_CH1CV), 200);
    assert_eq!(bus.word(TIMER0_BASE + TIMER_CH2CV), 300);
    assert_eq!(bus.word(TIMER0_BASE + TIMER_CH3CV), 0);
}

#[test]
fn rearm_trigger_writes_ch3cv_only() {
    let mut bus = RegisterFile::new();

    let h = PwmHandle::new(TIMER0_BASE, 2250);
    h.rearm_trigger(&mut bus, 2249).unwrap();

    assert_eq!(bus.word(TIMER0_BASE + TIMER_CH3CV), 2249);
    assert_eq!(bus.word(TIMER0_BASE + TIMER_CH0CV), 0);
    assert_eq!(bus.word(TIMER0_BASE + TIMER_CH1CV), 0);
    assert_eq!(bus.word(TIMER0_BASE + TIMER_CH2CV), 0);
}

#[test]
fn duty_above_period_is_rejected() {
    let mut bus = RegisterFile::new();

    let h = PwmHandle::new(TIMER0_BASE, 2250);
    assert_eq!(h.set_duties(&mut bus, [2251, 0, 0]), Err(PwmError::DutyOutOfRange));
    assert_eq!(h.rearm_trigger(&mut bus, 2251), Err(PwmError::DutyOutOfRange));
    assert_eq!(h.set_duties(&mut bus, [2250, 2250, 2250]), Ok(()));
}

#[test]
fn handle_never_writes_moe() {
    let mut bus = RegisterFile::new();

    bus.store(TIMER0_BASE + TIMER_CCHP, 0x0000_00AB);

    let h = PwmHandle::new(TIMER0_BASE, 2250);
    h.set_duties(&mut bus, [10, 20, 30]).unwrap();
    h.rearm_trigger(&mut bus, 2249).unwrap();
    let _ = h.set_duties(&mut bus, [9999, 0, 0]);

    assert_eq!(
        bus.word(TIMER0_BASE + TIMER_CCHP),
        0x0000_00AB,
        "the per-cycle handle must not touch CCHP/MOE"
    );
    assert_eq!(
        bus.word(TIMER0_BASE + TIMER_CCHP) & CCHP_MOE,
        0,
        "MOE stays clear: the handle cannot arm the bridge"
    );
}

#[test]
fn arm_gate_is_the_only_moe_writer() {
    let mut bus = RegisterFile::new();

    let gate = ArmGate::new(TIMER0_BASE);
    let h = PwmHandle::new(TIMER0_BASE, 2250);
    h.set_duties(&mut bus, [10, 20, 30]).unwrap();

    gate.arm(&mut bus);
    assert_eq!(
        bus.word(TIMER0_BASE + TIMER_CCHP) & CCHP_MOE,
        CCHP_MOE
    );
    assert_eq!(bus.word(TIMER0_BASE + TIMER_CH0CV), 10);

    gate.disarm(&mut bus);
    assert_eq!(bus.word(TIMER0_BASE + TIMER_CCHP) & CCHP_MOE, 0);
}

#[test]
fn read_injected_reads_idata_in_order() {
    let mut bus = RegisterFile::new();

    bus.store(ADC0_BASE + 0x3C, 0x0111);
    bus.store(ADC0_BASE + 0x40, 0x0222);
    bus.store(ADC0_BASE + 0x44, 0x0333);
    bus.store(ADC0_BASE + 0x48, 0x0444);

    let h = InjectedHandle::new(ADC0_BASE, 2);
    let got = h.read_injected(&mut bus);
    assert_eq!(got[0], 0x0111);
    assert_eq!(got[1], 0x0222);
    assert_eq!(got[2], 0x0333);
    assert_eq!(got[3], 0x0444);
    assert_eq!(h.len(), 2);
    assert!(!h.is_empty());
}

#[test]
fn configure_via_trait_then_set_duties() {
    let mut bus = RegisterFile::new();

    let chip = timer0_chip();
    let cfg = reference_config();
    let h = PwmController::new()
        .configure(&mut bus, &chip, &cfg)
        .expect("configure should succeed");

    assert_eq!(h.period(), 2250);

    assert_eq!(bus.word(TIMER0_BASE + TIMER_CAR), 2250);
    assert_eq!(
        bus.word(TIMER0_BASE + 0x00),
        0x40 | 0x100 | 0x80,
        "CTL0"
    );
    assert_eq!(
        bus.word(TIMER0_BASE + TIMER_CCHP) & CCHP_MOE,
        0,
        "configure leaves MOE OFF (bridge disarmed)"
    );

    h.set_duties(&mut bus, [100, 200, 300]).unwrap();
    assert_eq!(bus.word(TIMER0_BASE + TIMER_CH0CV), 100);
    assert_eq!(bus.word(TIMER0_BASE + TIMER_CH1CV), 200);
    assert_eq!(bus.word(TIMER0_BASE + TIMER_CH2CV), 300);

    let gate = PwmController::arm_gate(chip.base(cfg.timer).unwrap());
    gate.arm(&mut bus);
    assert_eq!(
        bus.word(TIMER0_BASE + TIMER_CCHP) & CCHP_MOE,
        CCHP_MOE
    );
}

#[test]
fn from_descriptor_resolves_and_range_checks() {
    let mut bus = RegisterFile::new();
    let mut addrs = AddrTable::new();
    addrs.set(PeriphLabel::Timer0, TIMER0_BASE);
    let chip = chip_with(addrs);
    let h = PwmController::new()
        .configure(&mut bus, &chip, &reference_config())
        .expect("present base resolves");
    assert_eq!(h.period(), 2250);

    let empty = chip_with(AddrTable::new());
    assert!(matches!(
        PwmController::new().configure(&mut bus, &empty, &reference_config()),
        Err(HotPathError::Descriptor(
            DescriptorError::MissingBase(_)
        ))
    ));
}

#[test]
fn rearm_trigger_matches_t6_trigger_channel() {
    let mut bus = RegisterFile::new();

    PwmTimer::at(TIMER0_BASE).configure_trigger(
        &mut bus,
        2249,
        OcMode::Pwm0,
        false,
        TrgoSource::Update,
    );
    assert_eq!(
        bus.word(TIMER0_BASE + TIMER_CH3CV),
        2249,
        "T6 programs the trigger compare at CH3CV (~CAR-1)"
    );

    let h = PwmHandle::new(TIMER0_BASE, 2250);
    h.rearm_trigger(&mut bus, 2200).unwrap();
    assert_eq!(
        bus.word(TIMER0_BASE + TIMER_CH3CV),
        2200,
        "rearm_trigger writes the T6 trigger channel CH3CV"
    );
    assert_eq!(bus.word(TIMER0_BASE + TIMER_CH0CV), 0);
}

fn reference_injected_config() -> InjectedAdcConfig {
    let mut channels = heapless::Vec::new();
    channels
        .push(InjectedChannel {
        channel: 4,
        sample_time: 1,
    })
        .unwrap();
    channels
        .push(InjectedChannel {
        channel: 5,
        sample_time: 1,
    })
        .unwrap();
    InjectedAdcConfig {
        adc: PeriphLabel::Adc0,
        channels,
        left_aligned: true,
        trigger_timer: PeriphLabel::Timer0,
        trigger_link: TimerTriggerLink::Ch3,
        clock_div: AdcClockDiv::Div6,
    }
}

#[test]
fn configure_injected_via_trait_drives_config_and_calibration() {
    let mut bus = RegisterFile::new();

    let chip = adc0_chip();
    let res = InjectedAdcController::new().configure(&mut bus, &chip, &reference_injected_config());
    assert!(
        matches!(res, Err(HotPathError::Adc(AdcError::Timeout))),
        "the trait config drives the calibration poll (Timeout in the flat mock)"
    );

    let ctl1 = bus.word(ADC0_BASE + 0x08);
    assert_eq!(ctl1 & (0x7 << 12), 1 << 12, "ETSIC = TIMER0 CH3 (code 1)");
    assert_ne!(ctl1 & (1 << 15), 0, "ETEIC (injected ext-trigger enable)");
    assert_ne!(ctl1 & (1 << 11), 0, "DAL (left-aligned)");
    assert_ne!(ctl1 & 1, 0, "ADCON (ADC enabled)");
    let ctl0 = bus.word(ADC0_BASE + 0x04);
    assert_ne!(ctl0 & (1 << 7), 0, "EOICIE (injected-EOC interrupt enable)");
    let isq = bus.word(ADC0_BASE + 0x38);
    assert_eq!((isq >> 20) & 0x3, 1, "ISQ IL = len-1");
}

#[test]
fn injected_handle_reads_idata_in_order() {
    let mut bus = RegisterFile::new();

    bus.store(ADC0_BASE + 0x3C, 0x0AAA);
    bus.store(ADC0_BASE + 0x40, 0x0BBB);
    let h = InjectedHandle::new(ADC0_BASE, 2);
    let got = h.read_injected(&mut bus);
    assert_eq!(got[0], 0x0AAA);
    assert_eq!(got[1], 0x0BBB);
}

#[test]
fn injected_trigger_link_and_validation() {
    let mut bus = RegisterFile::new();

    let chip = adc0_chip();

    let mut w = reference_injected_config();
    w.trigger_link = TimerTriggerLink::Trgo;
    let _ = InjectedAdcController::new().configure(&mut bus, &chip, &w);
    assert_eq!(
        bus.word(ADC0_BASE + 0x08) & (0x7 << 12),
        0,
        "ETSIC = TIMER0 TRGO (code 0)"
    );

    let mut bad = reference_injected_config();
    bad.trigger_timer = PeriphLabel::Timer7;
    assert!(matches!(
        InjectedAdcController::new().configure(&mut bus, &chip, &bad),
        Err(HotPathError::Adc(_))
    ));

    let mut empty = reference_injected_config();
    empty.channels.clear();
    assert!(matches!(
        InjectedAdcController::new().configure(&mut bus, &chip, &empty),
        Err(HotPathError::Adc(_))
    ));
}

#[test]
fn injected_from_descriptor_resolves_and_range_checks() {
    let mut bus = RegisterFile::new();

    let chip = adc0_chip();
    assert!(matches!(
        InjectedAdcController::new().configure(&mut bus, &chip, &reference_injected_config()),
        Err(HotPathError::Adc(AdcError::Timeout))
    ));

    let mut bad = AddrTable::new();
    bad.set(PeriphLabel::Adc0, TIMER0_BASE);
    let bad_chip = chip_with(bad);
    assert!(matches!(
        InjectedAdcController::new().configure(&mut bus, &bad_chip, &reference_injected_config()),
        Err(HotPathError::Descriptor(_))
    ));

    let empty = chip_with(AddrTable::new());
    assert!(matches!(
        InjectedAdcController::new().configure(&mut bus, &empty, &reference_injected_config()),
        Err(HotPathError::Descriptor(_))
    ));
}

#[test]
fn hall_reads_three_lines_into_code() {
    let mut bus = RegisterFile::new();

    const GPIOA: u32 = 0x4800_0000;
    const GPIOC: u32 = 0x4800_0800;
    let reader = HallReader::resolve(
        GpioPath::AhbCtlAfsel,
        [(GPIOC, 13), (GPIOA, 1), (GPIOC, 14)],
    );

    bus.store(GPIOC + 0x10, 1 << 13);
    bus.store(GPIOA + 0x10, 1 << 1); // PA1 = 1
    assert_eq!(reader.read(&mut bus), 0b011);

    bus.store(GPIOC + 0x10, (1 << 13) | (1 << 14));
    assert_eq!(reader.read(&mut bus), 0b111);

    bus.store(GPIOC + 0x10, 0);
    bus.store(GPIOA + 0x10, 0);
    assert_eq!(reader.read(&mut bus), 0);
}

#[test]
fn hall_uses_apb_istat_offset_on_f10x() {
    let mut bus = RegisterFile::new();

    const GPIOC: u32 = 0x4001_1000;
    const GPIOA: u32 = 0x4001_0800;
    let reader = HallReader::resolve(GpioPath::ApbCrlCrh, [(GPIOC, 13), (GPIOA, 1), (GPIOC, 14)]);
    bus.store(GPIOC + 0x08, 1 << 13);
    assert_eq!(reader.read(&mut bus), 0b001);
}

#[test]
fn handle_is_copy_and_resolve_once() {
    let mut bus = RegisterFile::new();

    let chip = timer0_chip();
    let h = PwmController::new()
        .configure(&mut bus, &chip, &reference_config())
        .unwrap();
    let h2 = h; // Copy, not move.
    h.set_duties(&mut bus, [1, 2, 3]).unwrap();
    h2.set_duties(&mut bus, [10, 20, 30]).unwrap();
    assert_eq!(bus.word(TIMER0_BASE + TIMER_CH0CV), 10);
    assert_eq!(bus.word(TIMER0_BASE + TIMER_CH2CV), 30);
    h.rearm_trigger(&mut bus, 2249).unwrap();
    assert_eq!(bus.word(TIMER0_BASE + TIMER_CH3CV), 2249);
}
