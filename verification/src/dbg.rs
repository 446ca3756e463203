//! The debug control register.

use vstd::prelude::*;

use crate::bits;
use crate::reg::{self, Bus, Reg32, Step};

verus! {

pub const DBG_BASE: u32 = 0xE004_2000;

pub const DBG_CTL0: u32 = 0x04;

/// Clocks are kept in sleep, deep sleep and standby.
pub const DBG_HOLD_LOWPOWER: u32 = 0x0000_0007;

/// Holding the debugger's connection through every low-power mode.
pub open spec fn hold_step() -> Step {
    Step::Modify {
        addr: reg::at(DBG_BASE, DBG_CTL0),
        mask: DBG_HOLD_LOWPOWER,
        bits: DBG_HOLD_LOWPOWER,
    }
}

/// Hold the debugger's connection through every low-power mode.
pub fn debug_hold_on_sleep<B: Bus>(bus: &mut B)
    ensures
        reg::did(*old(bus), *final(bus), hold_step()),
{
    Reg32::new(DBG_BASE, DBG_CTL0).modify(bus, DBG_HOLD_LOWPOWER, DBG_HOLD_LOWPOWER);
}

/// The three hold bits are set and no other changes, nor another register; doing it twice is doing
/// it once.
pub proof fn law_hold_sets_three_bits(w: u32, x: u32)
    ensures
        ({
            let once = reg::word_step(hold_step(), 0xE004_2004, w);
            &&& once & 7 == 7
            &&& once & !7u32 == w & !7u32
            &&& reg::word_step(hold_step(), 0xE004_2004, once) == once
            &&& x != 0xE004_2004 ==> reg::word_step(hold_step(), x, w) == w
        }),
{
    bits::masks();
    bits::merge_fields(w, DBG_HOLD_LOWPOWER, DBG_HOLD_LOWPOWER, DBG_HOLD_LOWPOWER);
}

} // verus!
