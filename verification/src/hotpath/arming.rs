//! The output switch of the bridge: the only thing that switches its main output.

use vstd::prelude::*;

use crate::bits;
use crate::hotpath::{CCHP_MOE, TIMER_CCHP};
use crate::reg::{self, Bus, Reg32, Step};

verus! {

/// The output switch of a bridge.
#[derive(Debug, Clone, Copy, PartialEq, Eq, Structural)]
pub struct ArmGate {
    cchp: Reg32,
}

impl ArmGate {
    /// The base of the timer.
    pub closed spec fn timer(self) -> u32 {
        self.cchp.addr.wrapping_sub(TIMER_CCHP)
    }

    /// The output switch of the timer at `timer_base`.
    pub fn new(timer_base: u32) -> (r: Self)
        ensures
            r.timer() == timer_base,
    {
        Self { cchp: Reg32::new(timer_base, TIMER_CCHP) }
    }

    /// Switching the main output.
    pub open spec fn output_step(self, on: bool) -> Step {
        Step::Modify {
            addr: reg::at(self.timer(), TIMER_CCHP),
            mask: CCHP_MOE,
            bits: if on {
                CCHP_MOE
            } else {
                0
            },
        }
    }

    /// Switch the main output on.
    pub fn arm<B: Bus>(&self, bus: &mut B)
        ensures
            reg::did(*old(bus), *final(bus), self.output_step(true)),
    {
        self.cchp.modify(bus, CCHP_MOE, CCHP_MOE);
    }

    /// Switch the main output off.
    pub fn disarm<B: Bus>(&self, bus: &mut B)
        ensures
            reg::did(*old(bus), *final(bus), self.output_step(false)),
    {
        self.cchp.modify(bus, CCHP_MOE, 0);
    }
}

/// Arming sets the main output, disarming clears it, and neither changes another bit of the
/// register; disarming undoes arming. No compare register is touched.
pub proof fn law_gate_switches_one_bit(gate: ArmGate, w: u32)
    ensures
        ({
            let cchp = reg::at(gate.timer(), 0x44);
            let armed = reg::word_step(gate.output_step(true), cchp, w);
            let disarmed = reg::word_step(gate.output_step(false), cchp, w);
            &&& armed & 0x8000 == 0x8000
            &&& armed & !0x8000u32 == w & !0x8000u32
            &&& disarmed & 0x8000 == 0
            &&& disarmed & !0x8000u32 == w & !0x8000u32
            &&& reg::word_step(gate.output_step(false), cchp, armed) == disarmed
            &&& forall|on: bool, offset: u32|
                0x34 <= offset <= 0x40 ==> #[trigger] reg::word_step(
                    gate.output_step(on),
                    reg::at(gate.timer(), offset),
                    w,
                ) == w
        }),
{
    bits::masks();
    bits::merge_fields(w, 0x8000, 0x8000, 0x8000);
    bits::merge_fields(w, 0x8000, 0, 0x8000);
}

} // verus!
