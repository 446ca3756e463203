//! Three input lines read as one code.

use vstd::prelude::*;

use crate::bits;
use crate::descriptor::GpioPath;
use crate::gpio;
use crate::reg::{self, Bus, Reg32, Step};

verus! {

/// How many lines a group reads.
pub const INPUT_GROUP_LINES: usize = 3;

/// One line: the input status register of its port, and its number there.
#[derive(Debug, Clone, Copy, PartialEq, Eq, Structural)]
struct InputLine {
    istat: Reg32,
    pin: u8,
}

/// Three input lines with their registers resolved once.
#[derive(Debug, Clone, Copy)]
pub struct InputGroup {
    lines: [InputLine; INPUT_GROUP_LINES],
}

/// Bit `n` of `w`.
pub open spec fn bit_of(w: u32, n: u8) -> int {
    if w & (1u32 << (n as u32)) != 0 {
        1
    } else {
        0
    }
}

impl InputGroup {
    /// The address of the register line `i` is read from.
    pub closed spec fn line_addr(self, i: int) -> u32 {
        self.lines[i].istat.addr
    }

    /// The number of line `i` within its port.
    pub closed spec fn line_pin(self, i: int) -> u8 {
        self.lines[i].pin
    }

    /// Every line is a bit of its register.
    pub open spec fn wf(self) -> bool {
        self.line_pin(0) < 32 && self.line_pin(1) < 32 && self.line_pin(2) < 32
    }

    /// The group of three lines, each given by the base of its port and its number there.
    pub fn resolve(path: GpioPath, lines: [(u32, u8); INPUT_GROUP_LINES]) -> (r: Self)
        ensures
            forall|i: int|
                0 <= i < 3 ==> {
                    &&& #[trigger] r.line_addr(i) == reg::at(lines[i].0, gpio::istat(path))
                    &&& r.line_pin(i) == lines[i].1
                },
            r.wf() <==> (lines[0].1 < 32 && lines[1].1 < 32 && lines[2].1 < 32),
    {
        let offset: u32 = match path {
            GpioPath::AhbCtlAfsel => gpio::F1X0_ISTAT,
            GpioPath::ApbCrlCrh => gpio::F10X_ISTAT,
        };
        let r = Self {
            lines: [
                InputLine { istat: Reg32::new(lines[0].0, offset), pin: lines[0].1 },
                InputLine { istat: Reg32::new(lines[1].0, offset), pin: lines[1].1 },
                InputLine { istat: Reg32::new(lines[2].0, offset), pin: lines[2].1 },
            ],
        };
        proof {
            assert forall|i: int| 0 <= i < 3 implies {
                &&& #[trigger] r.line_addr(i) == reg::at(lines[i].0, gpio::istat(path))
                &&& r.line_pin(i) == lines[i].1
            } by {
                if i == 0 {
                } else if i == 1 {
                } else {
                    assert(i == 2);
                }
            }
        }
        r
    }

    /// The loads of one reading, returning `v0`, `v1` and `v2`.
    pub open spec fn script(self, v0: u32, v1: u32, v2: u32) -> Seq<Step> {
        Seq::empty().push(Step::Load { addr: self.line_addr(0), value: v0 }).push(
            Step::Load { addr: self.line_addr(1), value: v1 },
        ).push(Step::Load { addr: self.line_addr(2), value: v2 })
    }

    fn sample<B: Bus>(&self, bus: &mut B, i: usize) -> (r: (u32, u8))
        requires
            i < 3,
            self.line_pin(i as int) < 32,
        ensures
            reg::did(
                *old(bus),
                *final(bus),
                Step::Load { addr: self.line_addr(i as int), value: r.0 },
            ),
            r.1 == bit_of(r.0, self.line_pin(i as int)),
    {
        let line: InputLine = self.lines[i];
        let v: u32 = line.istat.read(bus);
        let n: u32 = line.pin as u32;
        proof {
            bits::one_bit(v, n);
        }
        (v, ((v >> n) & 1) as u8)
    }

    /// The three lines as a code: line 0 in bit 0, line 1 in bit 1, line 2 in bit 2.
    pub fn read<B: Bus>(&self, bus: &mut B) -> (code: u8)
        requires
            self.wf(),
        ensures
            exists|v0: u32, v1: u32, v2: u32|
                #![trigger self.script(v0, v1, v2)]
                reg::ran(*old(bus), *final(bus), self.script(v0, v1, v2)) && code == bit_of(
                    v0,
                    self.line_pin(0),
                ) + 2 * bit_of(v1, self.line_pin(1)) + 4 * bit_of(v2, self.line_pin(2)),
    {
        broadcast use reg::ran_then;

        proof {
            reg::ran_nothing(*bus);
        }
        let (v0, a): (u32, u8) = self.sample(bus, 0);
        let (v1, b): (u32, u8) = self.sample(bus, 1);
        let (v2, c): (u32, u8) = self.sample(bus, 2);
        proof {
            bits::three_bits(a, b, c);
            assert(reg::ran(*old(bus), *bus, self.script(v0, v1, v2)));
        }
        a | (b << 1) | (c << 2)
    }
}

/// A bit of a word is what is left of the word moved down to it, modulo two.
pub proof fn law_bit_of(w: u32, n: u8)
    requires
        n < 32,
    ensures
        bit_of(w, n) == (w >> (n as u32)) & 1,
{
    bits::one_bit(w, n as u32);
}

} // verus!
