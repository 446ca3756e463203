//! Pin remapping on F10x.
//!
//! The remap register PCF0 holds the debug port configuration and the timer remaps side by side;
//! each setting leaves the others as they are. The block has to be clocked first.

use vstd::prelude::*;

use crate::bits;
use crate::reg::{self, Bus, Reg32, Step};

verus! {

pub const AFIO_BASE: u32 = 0x4001_0000;

pub const AFIO_PCF0: u32 = 0x04;

pub const RCU_APB2EN_OFFSET: u32 = 0x18;

pub const AFIOEN: u32 = 0x0000_0001;

/// The debug port configuration.
pub const PCF0_SWJ_CFG: u32 = 0x0700_0000;

/// Serial wire only: the JTAG pins are free.
pub const PCF0_SWJ_CFG_SW_ONLY: u32 = 0x0200_0000;

/// The remap of timer 1.
pub const PCF0_TIMER1_REMAP: u32 = 0x0000_0300;

/// The first partial remap: channels 0 and 1 move.
pub const PCF0_TIMER1_REMAP_PARTIAL0: u32 = 0x0000_0100;

/// Clocking the block.
pub open spec fn clock_step(rcu_base: u32) -> Step {
    Step::Modify { addr: reg::at(rcu_base, RCU_APB2EN_OFFSET), mask: AFIOEN, bits: AFIOEN }
}

/// A change to PCF0.
pub open spec fn pcf0_step(mask: u32, bits: u32) -> Step {
    Step::Modify { addr: reg::at(AFIO_BASE, AFIO_PCF0), mask, bits }
}

/// Giving up JTAG for serial wire.
pub open spec fn swj_script(rcu_base: u32) -> Seq<Step> {
    Seq::empty().push(clock_step(rcu_base)).push(pcf0_step(PCF0_SWJ_CFG, PCF0_SWJ_CFG_SW_ONLY))
}

/// Remapping timer 1.
pub open spec fn remap_script(rcu_base: u32) -> Seq<Step> {
    Seq::empty().push(clock_step(rcu_base)).push(
        pcf0_step(PCF0_TIMER1_REMAP, PCF0_TIMER1_REMAP_PARTIAL0),
    )
}

fn enable_clock<B: Bus>(bus: &mut B, rcu_base: u32)
    ensures
        reg::did(*old(bus), *final(bus), clock_step(rcu_base)),
{
    Reg32::new(rcu_base, RCU_APB2EN_OFFSET).modify(bus, AFIOEN, AFIOEN);
}

/// Give up JTAG for serial wire, which frees PA15, PB3 and PB4.
pub fn set_swj_sw_only<B: Bus>(bus: &mut B, rcu_base: u32)
    ensures
        reg::ran(*old(bus), *final(bus), swj_script(rcu_base)),
{
    broadcast use reg::ran_then;

    proof {
        reg::ran_nothing(*bus);
    }
    enable_clock(bus, rcu_base);
    Reg32::new(AFIO_BASE, AFIO_PCF0).modify(bus, PCF0_SWJ_CFG, PCF0_SWJ_CFG_SW_ONLY);
}

/// Remap timer 1: channel 0 to PA15, channel 1 to PB3.
pub fn remap_timer1_partial0<B: Bus>(bus: &mut B, rcu_base: u32)
    ensures
        reg::ran(*old(bus), *final(bus), remap_script(rcu_base)),
{
    broadcast use reg::ran_then;

    proof {
        reg::ran_nothing(*bus);
    }
    enable_clock(bus, rcu_base);
    Reg32::new(AFIO_BASE, AFIO_PCF0).modify(bus, PCF0_TIMER1_REMAP, PCF0_TIMER1_REMAP_PARTIAL0);
}

/// Each setting is made and leaves every other bit of the register as it was; in particular
/// neither setting undoes the other. The debug port keeps serial wire alone, and channels 0 and 1 of
/// timer 1 move. The block is clocked before either, and no other register changes.
pub proof fn law_settings_are_independent(rcu_base: u32, w: u32, x: u32)
    requires
        reg::at(rcu_base, 0x18) != 0x4001_0004,
    ensures
        ({
            let swj = reg::word_after(swj_script(rcu_base), 0x4001_0004, w);
            let remap = reg::word_after(remap_script(rcu_base), 0x4001_0004, w);
            &&& swj & 0x0700_0000 == 0x0200_0000
            &&& swj & !0x0700_0000u32 == w & !0x0700_0000u32
            &&& swj & 0x0000_0300 == w & 0x0000_0300
            &&& remap & 0x0000_0300 == 0x0000_0100
            &&& remap & !0x0000_0300u32 == w & !0x0000_0300u32
            &&& remap & 0x0700_0000 == w & 0x0700_0000
            &&& swj_script(rcu_base)[0] == remap_script(rcu_base)[0]
            &&& reg::word_step(swj_script(rcu_base)[0], reg::at(rcu_base, 0x18), w) == w | 1
            &&& reg::word_after(swj_script(rcu_base), reg::at(rcu_base, 0x18), w) == w | 1
            &&& reg::word_after(remap_script(rcu_base), reg::at(rcu_base, 0x18), w) == w | 1
            &&& x != 0x4001_0004 && x != reg::at(rcu_base, 0x18) ==> {
                &&& reg::word_after(swj_script(rcu_base), x, w) == w
                &&& reg::word_after(remap_script(rcu_base), x, w) == w
            }
        }),
{
    broadcast use reg::group_after;

    bits::masks();
    bits::merge_fields(w, PCF0_SWJ_CFG, PCF0_SWJ_CFG_SW_ONLY, PCF0_TIMER1_REMAP);
    bits::merge_fields(w, PCF0_TIMER1_REMAP, PCF0_TIMER1_REMAP_PARTIAL0, PCF0_SWJ_CFG);
    bits::merge_fields(w, 1, 1, 0);
}

} // verus!
