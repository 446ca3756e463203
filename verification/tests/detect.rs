//! Detection: descriptors, the console, the fault-safe probe.

use runtime_hal::addr::ranges::USART_APB2;
use runtime_hal::addr::{AddrTable, PeriphLabel};
use runtime_hal::chip::Chip;
use runtime_hal::clock::{ClockConfig, ClockSource};
use runtime_hal::config::{Oversampling, UsartConfig, UsartFrame};
use runtime_hal::descriptor::{ClockPath, GpioPath, PageSize};
use runtime_hal::detect::bringup::{
    apply_defaults, fallback_clock, prepare_console, SerialDriver, CONSOLE_BAUD,
    CONSOLE_PINS_ASSUMED, CONSOLE_RX, CONSOLE_TX, USART0_BASE,
};
use runtime_hal::detect::probe::{
    resume_pc_after_probe_load, resume_pc_range_gated, thumb_instr_bytes, vector_table_base,
    Detected, BUSFAULT_VECTOR_INDEX, STACKED_PC_INDEX, VECTOR_TABLE_LEN, VTOR_ALIGN,
};
use runtime_hal::detect::{
    descriptor_f103, descriptor_f130, synthesize, Family, ADC1_BASE, TIMER7_BASE,
};
use runtime_hal::error::DescriptorError;
use runtime_hal::reg::Bus;
use runtime_hal::regfile::RegisterFile;

fn detected(family: Family, flash_kib: u16, adv_timers: u8, adc_count: u8) -> Detected {
    Detected {
        family,
        flash_kib,
        adv_timers,
        adc_count,
    }
}

#[test]
fn synthesize_f1x0_equals_descriptor_f130() {
    assert_eq!(
        synthesize(&detected(Family::F1x0, 64, 1, 1)),
        descriptor_f130()
    );
    assert_eq!(
        synthesize(&detected(Family::F1x0, 256, 1, 1)).flash_page,
        PageSize::K1
    );
}

#[test]
fn synthesize_f10x_c8_baseline_equals_descriptor_f103() {
    assert_eq!(
        synthesize(&detected(Family::F10x, 64, 1, 2)),
        descriptor_f103()
    );
}

#[test]
fn f10x_descriptor_resolves_usart2_base() {
    assert_eq!(
        descriptor_f103().addrs.resolve(PeriphLabel::Usart2),
        Ok(0x4000_4800)
    );
}

#[test]
fn f1x0_descriptor_has_no_usart2() {
    assert_eq!(
        descriptor_f130().addrs.resolve(PeriphLabel::Usart2),
        Err(DescriptorError::MissingBase(
            PeriphLabel::Usart2
        ))
    );
}

#[test]
fn f10x_density_branch_picks_page_size() {
    assert_eq!(
        synthesize(&detected(Family::F10x, 64, 1, 2)).flash_page,
        PageSize::K1
    );
    assert_eq!(
        synthesize(&detected(Family::F10x, 128, 1, 2)).flash_page,
        PageSize::K1
    );
    assert_eq!(
        synthesize(&detected(Family::F10x, 129, 2, 3)).flash_page,
        PageSize::K2
    );
    assert_eq!(
        synthesize(&detected(Family::F10x, 256, 2, 3)).flash_page,
        PageSize::K2
    );
    assert_eq!(
        synthesize(&detected(Family::F10x, 512, 2, 3)).flash_page,
        PageSize::K2
    );
}

#[test]
fn count_conditional_bases_are_present_only_at_two_or_more() {
    let single = synthesize(&detected(Family::F10x, 64, 1, 1));
    assert_eq!(single.addrs.get(PeriphLabel::Timer7), None);
    assert_eq!(single.addrs.get(PeriphLabel::Adc1), None);
    let dual = synthesize(&detected(Family::F10x, 256, 2, 2));
    assert_eq!(dual.addrs.get(PeriphLabel::Timer7), Some(TIMER7_BASE));
    assert_eq!(dual.addrs.get(PeriphLabel::Adc1), Some(ADC1_BASE));
    let c8 = synthesize(&detected(Family::F10x, 64, 1, 2));
    assert_eq!(c8.addrs.get(PeriphLabel::Timer7), None);
    assert_eq!(c8.addrs.get(PeriphLabel::Adc1), Some(ADC1_BASE));
}

#[test]
fn synthesize_carries_the_measured_counts() {
    let d = synthesize(&detected(Family::F10x, 256, 2, 3));
    assert_eq!(d.adv_timers, 2);
    assert_eq!(d.adc_count, 3);
}

#[test]
fn synthesized_descriptors_pass_check_ranges() {
    for d in [
        synthesize(&detected(Family::F1x0, 64, 1, 1)),
        synthesize(&detected(Family::F10x, 64, 1, 2)),
        synthesize(&detected(Family::F10x, 256, 2, 2)),
    ] {
        assert!(d.addrs.check_ranges(d.gpio, d.clock).is_ok());
    }
}

#[test]
fn synthesized_f10x_selects_apb_bases_and_f130_selects_ahb() {
    let f103 = synthesize(&detected(Family::F10x, 64, 1, 2));
    assert_eq!(f103.addrs.get(PeriphLabel::Gpioa), Some(0x4001_0800));
    assert_eq!(f103.gpio, GpioPath::ApbCrlCrh);
    assert_eq!(f103.clock, ClockPath::F10xRcc);
    let f130 = synthesize(&detected(Family::F1x0, 64, 1, 1));
    assert_eq!(f130.addrs.get(PeriphLabel::Gpioa), Some(0x4800_0000));
    assert_eq!(f130.gpio, GpioPath::AhbCtlAfsel);
    assert_eq!(f130.clock, ClockPath::F1x0Rcu);
}

#[test]
fn fallback_clock_is_bare_irc8m_8mhz_and_validates() {
    assert_eq!(fallback_clock().sysclk_hz, 8_000_000);
    assert_eq!(fallback_clock().wait_states, 0);
    assert_eq!(fallback_clock().source, ClockSource::Irc8m);
    assert!(fallback_clock()
            .validate_for(ClockPath::F10xRcc)
            .is_ok());
    assert!(fallback_clock()
            .validate_for(ClockPath::F1x0Rcu)
            .is_ok());
}

#[test]
fn console_pins_are_the_flagged_pa9_pa10_convention() {
    assert_eq!(CONSOLE_TX, 9); // PA9: port 0, pin 9
    assert_eq!(CONSOLE_RX, 10); // PA10: port 0, pin 10
    assert!(CONSOLE_PINS_ASSUMED);
    assert_eq!(CONSOLE_BAUD, 115_200);
}

#[test]
fn usart0_base_is_the_shared_apb2_base() {
    assert_eq!(USART0_BASE, USART_APB2.0);
}

/// A driver that stores the baud rate at the base it resolves, and keeps what it was given.
#[derive(Debug)]
struct Usart {
    base: u32,
    clock: ClockConfig,
    cfg: UsartConfig,
}

impl SerialDriver<RegisterFile> for Usart {
    fn bring_up(
        bus: &mut RegisterFile,
        chip: &Chip,
        clock: &ClockConfig,
        cfg: &UsartConfig,
    ) -> Result<Self, DescriptorError> {
        let base = chip.base(cfg.usart)?;
        bus.store(base, cfg.baud);
        Ok(Usart {
            base,
            clock: *clock,
            cfg: *cfg,
        })
    }
}

/// A driver that refuses every part.
#[derive(Debug)]
struct Refusing;

impl SerialDriver<RegisterFile> for Refusing {
    fn bring_up(
        _: &mut RegisterFile,
        _: &Chip,
        _: &ClockConfig,
        _: &UsartConfig,
    ) -> Result<Self, DescriptorError> {
        Err(DescriptorError::UsartConfig)
    }
}

#[test]
fn the_console_driver_is_given_usart0_and_the_reset_clock() {
    let mut bus = RegisterFile::new();
    let f103 = Chip::from_descriptor(descriptor_f103());
    let usart: Usart = apply_defaults(&mut bus, &f103, Family::F10x).unwrap();
    assert_eq!(usart.base, 0x4001_3800);
    assert_eq!(usart.clock, fallback_clock());
    assert_eq!(
        usart.cfg,
        UsartConfig {
            usart: PeriphLabel::Usart0,
            tx: 9,
            rx: 10,
            baud: 115_200,
            frame: UsartFrame::eight_n_one(),
            oversampling: Oversampling::By16,
        }
    );
    // GPIOA and USART0 clocked, PA9 an output and PA10 an input, and the driver's own store.
    assert_eq!(bus.load(0x4002_1018), (1 << 2) | (1 << 14));
    assert_eq!(bus.load(0x4001_0804), 0x0000_04B0);
    assert_eq!(bus.load(0x4001_3800), 115_200);

    let (console, cfg) = prepare_console(&mut RegisterFile::new(), &f103).unwrap();
    assert_eq!(console.base(PeriphLabel::Usart0), Ok(USART0_BASE));
    assert_eq!(cfg, usart.cfg);
}

#[test]
fn the_console_fails_as_its_driver_or_its_part_does() {
    let mut bus = RegisterFile::new();
    let f103 = Chip::from_descriptor(descriptor_f103());
    let refused: Result<Refusing, _> = apply_defaults(&mut bus, &f103, Family::F10x);
    assert_eq!(refused.unwrap_err(), DescriptorError::UsartConfig);

    let mut desc = descriptor_f103();
    desc.addrs = AddrTable::new();
    let bare: Result<Usart, _> =
        apply_defaults(&mut bus, &Chip::from_descriptor(desc), Family::F10x);
    assert_eq!(bare.unwrap_err(), DescriptorError::MissingBase(PeriphLabel::Rcu));
}

#[test]
fn apply_defaults_brings_up_the_console_on_both_families() {
    let mut bus = RegisterFile::new();
    let f130 = Chip::from_descriptor(descriptor_f130());
    assert!(apply_defaults::<_, Usart>(&mut bus, &f130, Family::F1x0).is_ok());
    assert!(
        f130.base(PeriphLabel::Usart0).is_err(),
        "detected chip untouched"
    );
    bus = RegisterFile::new();
    let f103 = Chip::from_descriptor(descriptor_f103());
    assert!(apply_defaults::<_, Usart>(&mut bus, &f103, Family::F10x).is_ok());
}

const VECTOR_TABLE_BYTES: u32 = (VECTOR_TABLE_LEN * std::mem::size_of::<u32>()) as u32;

#[test]
fn busfault_vector_index_matches_offset_0x14() {
    assert_eq!(BUSFAULT_VECTOR_INDEX, 5);
    assert_eq!(
        BUSFAULT_VECTOR_INDEX * std::mem::size_of::<u32>(),
        0x14,
        "the BusFault slot is at byte offset 0x14 in the vector table"
    );
}

#[test]
fn vector_table_covers_the_system_vectors_and_the_busfault_slot() {
    assert_eq!(
        VECTOR_TABLE_LEN, 16,
        "SP word + 15 system exception vectors"
    );
    assert!(VECTOR_TABLE_LEN > BUSFAULT_VECTOR_INDEX);
    assert_eq!(VECTOR_TABLE_BYTES, (VECTOR_TABLE_LEN * 4) as u32);
    assert!(
        VTOR_ALIGN >= 128,
        "ARMv7-M VTOR base needs >= 128-byte alignment"
    );
    assert!(
        VTOR_ALIGN >= VECTOR_TABLE_BYTES,
        "alignment must be >= the table size"
    );
    assert_eq!(
        VTOR_ALIGN & (VTOR_ALIGN - 1),
        0,
        "VTOR alignment is a power of two"
    );
}

#[test]
fn vector_table_base_rounds_up_to_vtor_align() {
    let align = VTOR_ALIGN;
    assert_eq!(vector_table_base(align), align);
    assert_eq!(vector_table_base(2 * align), 2 * align);
    assert_eq!(vector_table_base(0), 0);
    assert_eq!(vector_table_base(1), align);
    assert_eq!(vector_table_base(align - 1), align);
    assert_eq!(vector_table_base(align + 1), 2 * align);
}

#[test]
fn vector_table_base_is_a_valid_vtor_value() {
    for addr in [0u32, 1, 7, 0x2000_0001, 0x2000_03FF, 0x2000_0400] {
        let base = vector_table_base(addr);
        assert_eq!(
            base % VTOR_ALIGN,
            0,
            "the programmed VTOR base must be a multiple of the VTOR alignment"
        );
        assert!(
            base >= addr,
            "the round-up never moves the base below the table"
        );
    }
}

#[test]
fn stacked_pc_is_word_six_of_the_frame() {
    assert_eq!(STACKED_PC_INDEX, 6);
}

#[test]
fn thumb_instr_bytes_decodes_16_vs_32_bit_encodings() {
    assert_eq!(
        thumb_instr_bytes(0x6800),
        2,
        "narrow LDR (the 3309e39 lowering)"
    );
    assert_eq!(thumb_instr_bytes(0xE7FE), 2, "b.n (top five bits 0b11100)");
    assert_eq!(thumb_instr_bytes(0x4608), 2, "mov r0, r1");
    assert_eq!(thumb_instr_bytes(0x0000), 2);
    assert_eq!(
        thumb_instr_bytes(0xE7FF),
        2,
        "0xE7FF is the last 16-bit halfword"
    );

    assert_eq!(
        thumb_instr_bytes(0xF8D0),
        4,
        "LDR.W (the pinned probe load)"
    );
    assert_eq!(
        thumb_instr_bytes(0xE800),
        4,
        "first 32-bit halfword (0b11101)"
    );
    assert_eq!(
        thumb_instr_bytes(0xF000),
        4,
        "0b11110 (BL / data-processing)"
    );
    assert_eq!(thumb_instr_bytes(0xF800), 4, "0b11111");
    assert_eq!(thumb_instr_bytes(0xFFFF), 4);

    assert_eq!(thumb_instr_bytes(0xE7FF), 2);
    assert_eq!(thumb_instr_bytes(0xE800), 4);
}

#[test]
fn resume_pc_advances_by_the_decoded_width_thumb_bit_preserved() {
    for &pc in &[0x0800_07e2u32, 0x0800_0d02, 0x0800_0000, 0x2000_0100] {
        assert_eq!(resume_pc_after_probe_load(pc, 0xF8D0), pc + 4);
        assert_eq!(resume_pc_after_probe_load(pc, 0x6800), pc + 2);
        assert_eq!(resume_pc_after_probe_load(pc, 0xF8D0) & 1, 0);
        assert_eq!(resume_pc_after_probe_load(pc, 0x6800) & 1, 0);
    }
}

#[test]
fn range_gate_advances_in_function_pc_and_leaves_caller_frame_pc() {
    let lo = 0x0800_0d00u32;
    let hi = 0x0800_0d20u32; // [lo, hi)
    let in_pc = 0x0800_0d06u32; // load (0d02) + 4, still inside
    assert_eq!(
        resume_pc_range_gated(in_pc, lo, hi, 0xF8D0),
        in_pc + 4,
        "in-function 32-bit instruction advances by 4"
    );
    assert_eq!(
        resume_pc_range_gated(in_pc, lo, hi, 0x6800),
        in_pc + 2,
        "in-function 16-bit instruction advances by 2"
    );
    let caller_pc = 0x0800_1a44u32; // in probe_present, outside [lo, hi)
    assert_eq!(
        resume_pc_range_gated(caller_pc, lo, hi, 0xF8D0),
        caller_pc,
        "caller-frame PC is unchanged (re-execute, do not skip)"
    );
    assert_eq!(resume_pc_range_gated(lo - 2, lo, hi, 0xF8D0), lo - 2);
}

#[test]
fn range_gate_boundaries_lo_inclusive_hi_exclusive() {
    let lo = 0x0800_0d00u32;
    let hi = 0x0800_0d20u32;
    assert_eq!(resume_pc_range_gated(lo, lo, hi, 0x6800), lo + 2);
    assert_eq!(resume_pc_range_gated(hi, lo, hi, 0x6800), hi);
    assert_eq!(resume_pc_range_gated(hi - 2, lo, hi, 0x6800), hi);
}

#[test]
fn frame_model_only_pc_word_changes() {
    let faulting_pc = 0x0800_0d02u32; // a 32-bit LDR.W probe load
    let xpsr = 0x0100_0000u32; // xPSR with the Thumb bit (bit 24) set
    let mut frame: [u32; 8] = [0x11, 0x22, 0x33, 0x44, 0x55, 0x66, faulting_pc, xpsr];
    let before = frame;

    frame[STACKED_PC_INDEX] = resume_pc_after_probe_load(frame[STACKED_PC_INDEX], 0xF8D0);

    assert_eq!(
        frame[STACKED_PC_INDEX],
        faulting_pc + 4,
        "PC advanced past the 4-byte LDR.W"
    );
    for i in 0..8 {
        if i != STACKED_PC_INDEX {
            assert_eq!(
                frame[i], before[i],
                "word {i} must be untouched (xPSR is word 7)"
            );
        }
    }
    assert_eq!(frame[7], xpsr, "the stacked xPSR (Thumb bit) is preserved");

    let mut narrow = before;
    narrow[STACKED_PC_INDEX] = resume_pc_after_probe_load(narrow[STACKED_PC_INDEX], 0x6800);
    assert_eq!(narrow[STACKED_PC_INDEX], faulting_pc + 2);
}
