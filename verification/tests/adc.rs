//! ADC: configuration, field placement, calibration, reading, injected sequences.

use runtime_hal::adc::{
    is_internal_channel, Adc, CTL0, CTL0_EOICIE, CTL0_SM, CTL1, CTL1_ADCON, CTL1_CTN, CTL1_DAL,
    CTL1_ETEIC, CTL1_ETERC, CTL1_ETSIC, CTL1_ETSRC, CTL1_SWRCST, CTL1_TSVREN, ETSIC_T0_CH3,
    ETSIC_T0_TRGO, ETSRC_SOFTWARE, ISQ, RDATA, RSQ0, RSQ0_RL, RSQ1, RSQ2, RSQ_FIELD, SAMPT0,
    SAMPT1, SAMPT_FIELD, STAT, STAT_EOC,
};
use runtime_hal::error::AdcError;
use runtime_hal::reg::Bus;
use runtime_hal::regfile::RegisterFile;

const ADC0_BASE: u32 = 0x4001_2400;
const VREFINT: u8 = 17;
const SAMPLE_239: u8 = 7;

fn seed_reset() -> RegisterFile {
    RegisterFile::new()
}

fn r(bus: &RegisterFile, off: u32) -> u32 {
    bus.word(ADC0_BASE + off)
}

fn w(bus: &mut RegisterFile, off: u32, v: u32) {
    bus.store(ADC0_BASE + off, v);
}

fn dev() -> Adc {
    Adc::at(ADC0_BASE)
}

#[test]
fn configure_internal_channel_sets_single_right_software_trigger_and_tsvren() {
    let mut bus = seed_reset();
    dev().configure(&mut bus, VREFINT, SAMPLE_239);

    assert_eq!(r(&bus, CTL0) & CTL0_SM, 0, "SM clear (single conversion)");

    let ctl1 = r(&bus, CTL1);
    assert_eq!(ctl1 & CTL1_CTN, 0, "CTN clear (single, not continuous)");
    assert_eq!(ctl1 & CTL1_DAL, 0, "DAL clear (right-aligned 12-bit)");
    assert_eq!(
        ctl1 & CTL1_ETSRC,
        ETSRC_SOFTWARE,
        "ETSRC = software-trigger code (7)"
    );
    assert_eq!(ctl1 & CTL1_ETERC, CTL1_ETERC, "ETERC set");
    assert_eq!(ctl1 & CTL1_ADCON, CTL1_ADCON, "ADCON set (ADC on)");
    assert_eq!(
        ctl1 & CTL1_TSVREN,
        CTL1_TSVREN,
        "TSVREN set for an internal channel"
    );

    assert_eq!(r(&bus, RSQ0) & RSQ0_RL, 0, "RL = 0 (length-1 sequence)");
    assert_eq!(
        r(&bus, RSQ2) & RSQ_FIELD,
        VREFINT as u32,
        "rank 0 holds channel 17"
    );

    let shift = 3 * (VREFINT as u32 - 10);
    assert_eq!(
        (r(&bus, SAMPT0) >> shift) & SAMPT_FIELD,
        SAMPLE_239 as u32,
        "channel 17 sample time = 239.5"
    );
}

#[test]
fn configure_external_channel_leaves_tsvren_clear() {
    let mut bus = seed_reset();
    dev().configure(&mut bus, 0, SAMPLE_239);
    assert_eq!(
        r(&bus, CTL1) & CTL1_TSVREN,
        0,
        "TSVREN stays clear for an external channel"
    );
    assert_eq!(r(&bus, RSQ2) & RSQ_FIELD, 0, "rank 0 holds channel 0");
    assert_eq!(
        r(&bus, SAMPT1) & SAMPT_FIELD,
        SAMPLE_239 as u32,
        "channel 0 sample time in SAMPT1"
    );
}

#[test]
fn rank_lands_in_the_right_rsq_register_and_shift() {
    let mut bus = seed_reset();
    let d = dev();
    d.set_regular_rank(&mut bus, 0, 3);
    d.set_regular_rank(&mut bus, 5, 9);
    d.set_regular_rank(&mut bus, 6, 1);
    d.set_regular_rank(&mut bus, 12, 4);
    assert_eq!(r(&bus, RSQ2) & RSQ_FIELD, 3, "rank 0 -> RSQ2 bits[4:0]");
    assert_eq!(
        (r(&bus, RSQ2) >> (5 * 5)) & RSQ_FIELD,
        9,
        "rank 5 -> RSQ2 bits[29:25]"
    );
    assert_eq!(r(&bus, RSQ1) & RSQ_FIELD, 1, "rank 6 -> RSQ1 bits[4:0]");
    assert_eq!(
        r(&bus, RSQ0) & RSQ_FIELD,
        4,
        "rank 12 -> RSQ0 bits[4:0] (below RL)"
    );
}

#[test]
fn sample_time_lands_in_the_right_sampt_register_and_shift() {
    let mut bus = seed_reset();
    let d = dev();
    d.set_sample_time(&mut bus, 9, 5);
    d.set_sample_time(&mut bus, 10, 2);
    assert_eq!(
        (r(&bus, SAMPT1) >> (3 * 9)) & SAMPT_FIELD,
        5,
        "channel 9 -> SAMPT1 field 9"
    );
    assert_eq!(r(&bus, SAMPT0) & SAMPT_FIELD, 2, "channel 10 -> SAMPT0 field 0");
}

#[test]
fn calibrate_times_out_when_calibration_bit_never_clears() {
    let mut bus = seed_reset();
    let e = dev().calibrate(&mut bus).unwrap_err();
    assert_eq!(
        e,
        AdcError::Timeout,
        "calibration must time out, not hang, on a stuck bit"
    );
}

#[test]
fn read_data_returns_rdata_when_eoc_set() {
    let mut bus = seed_reset();
    w(&mut bus, STAT, STAT_EOC);
    w(&mut bus, RDATA, 0x0654); // a 12-bit-ish value (1620 counts ~ VREFINT region)
    assert_eq!(
        dev().read_data(&mut bus).unwrap(),
        0x0654,
        "read_data returns the RDATA value"
    );
}

#[test]
fn read_channel_triggers_repoints_rank0_and_returns_value() {
    let mut bus = seed_reset();
    w(&mut bus, STAT, STAT_EOC);
    w(&mut bus, RDATA, 0x0321);
    let v = dev().read_channel(&mut bus, VREFINT).unwrap();
    assert_eq!(v, 0x0321, "read_channel returns the conversion value");
    assert_eq!(
        r(&bus, RSQ2) & RSQ_FIELD,
        VREFINT as u32,
        "rank 0 re-pointed to the requested channel"
    );
    assert_eq!(
        r(&bus, CTL1) & CTL1_SWRCST,
        CTL1_SWRCST,
        "software trigger (SWRCST) set"
    );
}

#[test]
fn read_data_times_out_when_eoc_never_sets() {
    let mut bus = seed_reset();
    let e = dev().read_data(&mut bus).unwrap_err();
    assert_eq!(
        e,
        AdcError::Timeout,
        "EOC poll times out when the conversion never completes"
    );
}

#[test]
fn is_internal_channel_covers_16_and_17() {
    assert!(is_internal_channel(16) && is_internal_channel(17));
    assert!(!is_internal_channel(0) && !is_internal_channel(15) && !is_internal_channel(18));
}

#[test]
fn configure_injected_end_state() {
    let mut bus = seed_reset();
    let chans = [(4u8, 1u8), (5u8, 1u8)];
    let _ = Adc::configure_injected(&mut bus, ADC0_BASE, &chans, true, ETSIC_T0_CH3);

    let ctl1 = r(&bus, CTL1);
    assert_ne!(ctl1 & CTL1_DAL, 0, "left-aligned (DAL set)");
    assert_eq!(ctl1 & CTL1_ETSIC, 1 << 12, "ETSIC = TIMER0 CH3 (code 1)");
    assert_ne!(ctl1 & CTL1_ETEIC, 0, "ETEIC (injected ext-trigger enable)");
    assert_ne!(ctl1 & CTL1_ADCON, 0, "ADCON (enabled)");
    assert_ne!(
        r(&bus, CTL0) & CTL0_EOICIE,
        0,
        "EOICIE (injected-EOC interrupt enable)"
    );

    let isq = r(&bus, ISQ);
    assert_eq!((isq >> 20) & 0x3, 1, "ISQ IL = len-1");
    assert_eq!(
        (isq >> 10) & 0x1F,
        4,
        "rank 0 channel field (bits[14:10]) = ch 4"
    );
    assert_eq!(
        (isq >> 15) & 0x1F,
        5,
        "rank 1 channel field (bits[19:15]) = ch 5"
    );

    let sampt1 = r(&bus, SAMPT1);
    assert_eq!((sampt1 >> (3 * 4)) & 0x7, 1, "ch4 sample time (7.5 cycles)");
    assert_eq!((sampt1 >> (3 * 5)) & 0x7, 1, "ch5 sample time (7.5 cycles)");
}

#[test]
fn configure_injected_trgo_etsic_is_zero() {
    let mut bus = seed_reset();
    let chans = [(4u8, 1u8)];
    let _ = Adc::configure_injected(&mut bus, ADC0_BASE, &chans, true, ETSIC_T0_TRGO);
    assert_eq!(r(&bus, CTL1) & CTL1_ETSIC, 0, "ETSIC = TIMER0 TRGO (code 0)");
}

#[test]
fn read_injected_data_reads_idata() {
    let mut bus = seed_reset();
    bus.store(ADC0_BASE + 0x3C, 0x0123);
    bus.store(ADC0_BASE + 0x40, 0x0456);
    let dev = Adc::at(ADC0_BASE);
    assert_eq!(dev.read_injected_data(&mut bus, 0), 0x0123);
    assert_eq!(dev.read_injected_data(&mut bus, 1), 0x0456);
}

#[test]
fn wait_eoic_times_out() {
    let mut bus = seed_reset();
    let e = Adc::at(ADC0_BASE).wait_eoic(&mut bus).unwrap_err();
    assert_eq!(e, AdcError::Timeout);
}
