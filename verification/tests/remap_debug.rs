//! Pin remapping and the debug register.

use runtime_hal::afio::{remap_timer1_partial0, set_swj_sw_only};
use runtime_hal::dbg::debug_hold_on_sleep;
use runtime_hal::reg::Bus;
use runtime_hal::regfile::RegisterFile;

const RCU_BASE: u32 = 0x4002_1000;
const AFIO_PCF0_ABS: u32 = 0x4001_0004;
fn seed() -> RegisterFile {
    RegisterFile::new()
}

#[test]
fn remap_timer1_partial0_sets_pcf0_field_to_01_and_enables_afio() {
    let mut bus = seed();
    remap_timer1_partial0(&mut bus, RCU_BASE);
    assert_eq!(bus.word(RCU_BASE + 0x18) & 1, 1);
    assert_eq!(bus.word(AFIO_PCF0_ABS), 0b01 << 8);
}

#[test]
fn remap_timer1_partial0_preserves_swj_cfg() {
    let mut bus = seed();
    bus.store(AFIO_PCF0_ABS, 0b010 << 24); // pretend set_swj_sw_only ran
    remap_timer1_partial0(&mut bus, RCU_BASE);
    let pcf0 = bus.word(AFIO_PCF0_ABS);
    assert_eq!(pcf0 & (0b111 << 24), 0b010 << 24, "SWJ_CFG preserved");
    assert_eq!(pcf0 & (0b11 << 8), 0b01 << 8, "TIMER1_REMAP = 01");
}

#[test]
fn set_swj_sw_only_touches_only_the_swj_field() {
    let mut bus = seed();
    bus.store(AFIO_PCF0_ABS, 0b01 << 8);
    set_swj_sw_only(&mut bus, RCU_BASE);
    let pcf0 = bus.word(AFIO_PCF0_ABS);
    assert_eq!(pcf0 & (0b111 << 24), 0b010 << 24, "SWJ_CFG = SW-only");
    assert_eq!(pcf0 & (0b11 << 8), 0b01 << 8, "TIMER1_REMAP untouched");
    assert_eq!(bus.word(RCU_BASE + 0x18) & 1, 1, "AFIOEN on");
}

#[test]
fn debug_hold_sets_only_the_three_hold_bits() {
    let mut bus = RegisterFile::new();
    bus.store(0xE004_2000 + 0x04, 1 << 5);
    debug_hold_on_sleep(&mut bus);
    let v = bus.word(0xE004_2000 + 0x04);
    assert_eq!(v & 0b111, 0b111, "SLP_HOLD|DSLP_HOLD|STB_HOLD set");
    assert_eq!(v & (1 << 5), 1 << 5, "unrelated bits preserved");
    debug_hold_on_sleep(&mut bus);
    assert_eq!(bus.word(0xE004_2000 + 0x04), (1 << 5) | 0b111);
}
