//! The fault-safe probe on a flat register space, where every read answers.

use runtime_hal::addr::PeriphLabel;
use runtime_hal::descriptor::PageSize;
use runtime_hal::detect::probe::{
    arm_busfault, disarm_busfault, install_probe_vector_table, measure_counts, on_bus_fault,
    probe_family, probe_present, rcu_enable_sticky, read_flash_density, restore_vector_table, run,
    Detected, FaultWindow, MeasuredCounts, ProbeTable, CFSR_ADDR, RCU_APB2EN_OFFSET, RCU_BASE,
    SHCSR_ADDR, SHCSR_BUSFAULTENA, VTOR_ADDR,
};
use runtime_hal::detect::{
    chip_of, detect_chip, family_capability, family_model, flash_page_for, Family,
    FLASH_DENSITY_ADDR,
};
use runtime_hal::error::DetectError;
use runtime_hal::reg::Bus;
use runtime_hal::regfile::RegisterFile;

const TABLE: ProbeTable = ProbeTable {
    addr: 0x2000_0080,
    entry: 0x0800_1235,
};
const ACTIVE: u32 = 0x0800_0000;

fn booted() -> RegisterFile {
    let mut bus = RegisterFile::new();
    bus.store(VTOR_ADDR, ACTIVE);
    for i in 0..16u32 {
        bus.store(ACTIVE + 4 * i, 0x0800_0101 + 16 * i);
    }
    bus.store(FLASH_DENSITY_ADDR, 0xFFFF_0100);
    bus
}

#[test]
fn the_table_is_a_copy_but_for_the_bus_fault_vector() {
    let mut bus = booted();
    assert_eq!(install_probe_vector_table(&mut bus, TABLE), ACTIVE);
    for i in 0..16u32 {
        let expected = if i == 5 {
            TABLE.entry
        } else {
            0x0800_0101 + 16 * i
        };
        assert_eq!(bus.word(TABLE.addr + 4 * i), expected);
    }
    assert_eq!(bus.word(VTOR_ADDR), TABLE.addr);
    restore_vector_table(&mut bus, ACTIVE);
    assert_eq!(bus.word(VTOR_ADDR), ACTIVE);
}

#[test]
fn the_bus_fault_enable_is_left_as_it_was() {
    let mut bus = RegisterFile::new();
    bus.store(SHCSR_ADDR, 0x0001_0000);
    let was = arm_busfault(&mut bus);
    assert!(!was);
    assert_eq!(bus.word(SHCSR_ADDR), 0x0003_0000);
    disarm_busfault(&mut bus, was);
    assert_eq!(bus.word(SHCSR_ADDR), 0x0001_0000);
    bus.store(SHCSR_ADDR, SHCSR_BUSFAULTENA);
    let was = arm_busfault(&mut bus);
    assert!(was);
    disarm_busfault(&mut bus, was);
    assert_eq!(bus.word(SHCSR_ADDR), SHCSR_BUSFAULTENA);
}

#[test]
fn counting_leaves_no_trace() {
    let mut bus = booted();
    bus.store(RCU_BASE + RCU_APB2EN_OFFSET, 0x0000_4004);
    assert_eq!(
        measure_counts(&mut bus, TABLE),
        MeasuredCounts {
            adv_timers: 2,
            adc_count: 3
        }
    );
    assert_eq!(bus.word(RCU_BASE + RCU_APB2EN_OFFSET), 0x0000_4004);
    assert_eq!(bus.word(VTOR_ADDR), ACTIVE);
    assert_eq!(bus.word(SHCSR_ADDR), 0);
    for base in [
        0x4001_2C00u32,
        0x4001_3400,
        0x4001_2400,
        0x4001_2800,
        0x4001_3C00,
    ] {
        assert_eq!(bus.word(base + 0x28), 0);
    }
}

#[test]
fn telling_the_family_changes_only_the_port_clock() {
    let mut bus = booted();
    assert_eq!(probe_family(&mut bus), Some(Family::F1x0));
    assert_eq!(bus.word(RCU_BASE + 0x14), 1 << 17);
    assert_eq!(bus.word(RCU_BASE + 0x18), 0);
    assert_eq!(bus.word(VTOR_ADDR), ACTIVE);
}

#[test]
fn a_flat_space_is_detected_in_one_pass() {
    let mut bus = booted();
    assert_eq!(read_flash_density(&mut bus), 0x100);
    let found = run(&mut bus, TABLE);
    assert_eq!(
        found,
        Some(Detected {
            family: Family::F1x0,
            flash_kib: 256,
            adv_timers: 2,
            adc_count: 3
        })
    );
    assert_eq!(bus.word(VTOR_ADDR), ACTIVE);
    let chip = detect_chip(&mut booted(), TABLE).unwrap();
    assert_eq!(Ok(chip), chip_of(found));
    assert_eq!(chip.flash_size_bytes(), 256 * 1024);
    assert_eq!(chip.flash_page(), PageSize::K1);
    assert!(chip.has_advanced_timer(PeriphLabel::Timer7));
    assert!(chip.has_adc(PeriphLabel::Adc1));
}

#[test]
fn no_family_is_an_error() {
    assert_eq!(chip_of(None), Err(DetectError::NoFamily));
}

#[test]
fn families_and_their_limits() {
    assert_eq!(family_capability(Family::F10x), (2, 2));
    assert_eq!(family_capability(Family::F1x0), (1, 1));
    assert_eq!(family_model(Family::F10x).max_adcs, 2);
    assert_eq!(flash_page_for(Family::F10x, 128), PageSize::K1);
    assert_eq!(flash_page_for(Family::F10x, 129), PageSize::K2);
    assert_eq!(flash_page_for(Family::F1x0, 512), PageSize::K1);
}

#[test]
fn a_read_in_the_window_answers_with_its_value() {
    let mut bus = RegisterFile::new();
    bus.store(0x4800_0000, 0x682A_73A3);
    assert_eq!(probe_present(&mut bus, 0x4800_0000), Some(0x682A_73A3));
    assert!(rcu_enable_sticky(&mut bus, RCU_APB2EN_OFFSET, 13));
    assert_eq!(bus.word(RCU_BASE + RCU_APB2EN_OFFSET), 1 << 13);
}

#[test]
fn the_window_turns_a_fault_into_an_absence() {
    let mut window = FaultWindow::new();
    assert!(!window.expecting);
    window.open(0x4800_0000);
    assert!(window.expecting);
    assert_eq!(window.probed, 0x4800_0000);
    assert_eq!(window.close(7), Some(7));
    assert!(!window.expecting);
    window.open(0x4800_0000);
    window.faulted = true;
    assert_eq!(window.close(7), None);
    window.open(0x4001_0800);
    assert!(!window.faulted);
}

fn frame(pc: u32) -> [u32; 8] {
    [1, 2, 3, 4, 5, 6, pc, 0x0100_0000]
}

#[test]
fn an_expected_fault_inside_the_load_is_stepped_over() {
    let mut bus = RegisterFile::new();
    bus.store(CFSR_ADDR, 0x0000_8200);
    bus.store_half(0x0800_2004, 0xF8D0);
    let mut window = FaultWindow::new();
    window.open(0x4800_0000);
    let mut stacked = frame(0x0800_2004);
    assert!(on_bus_fault(
        &mut bus,
        &mut window,
        &mut stacked,
        (0x0800_2000, 0x0800_2010)
    ));
    assert_eq!(stacked, frame(0x0800_2008));
    assert!(window.faulted);
    bus.store_half(0x0800_2004, 0x6800);
    let mut stacked = frame(0x0800_2004);
    assert!(on_bus_fault(
        &mut bus,
        &mut window,
        &mut stacked,
        (0x0800_2000, 0x0800_2010)
    ));
    assert_eq!(stacked, frame(0x0800_2006));
}

#[test]
fn an_expected_fault_outside_the_load_resumes_where_it_was() {
    let mut bus = RegisterFile::new();
    let mut window = FaultWindow::new();
    window.open(0x4800_0000);
    let mut stacked = frame(0x0800_3000);
    assert!(on_bus_fault(
        &mut bus,
        &mut window,
        &mut stacked,
        (0x0800_2000, 0x0800_2010)
    ));
    assert_eq!(stacked, frame(0x0800_3000));
    assert!(window.faulted);
}

#[test]
fn a_fault_outside_the_window_is_not_handled() {
    let mut bus = RegisterFile::new();
    let mut window = FaultWindow::new();
    let mut stacked = frame(0x0800_2004);
    assert!(!on_bus_fault(
        &mut bus,
        &mut window,
        &mut stacked,
        (0x0800_2000, 0x0800_2010)
    ));
    assert_eq!(stacked, frame(0x0800_2004));
    assert_eq!(window, FaultWindow::new());
}
