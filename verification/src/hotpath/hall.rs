//! The hall sensors of a motor: three lines read as one code.

use vstd::prelude::*;

use crate::descriptor::GpioPath;
use crate::gpio;
use crate::gpio::gpio_in::{self, InputGroup};
use crate::reg::{self, Bus};

verus! {

/// The lines of a hall sensor.
pub const HALL_LINES: usize = 3;

/// The three lines, with their registers resolved once.
#[derive(Debug, Clone, Copy)]
pub struct HallReader {
    lines: InputGroup,
}

impl HallReader {
    /// The lines.
    pub closed spec fn group(self) -> InputGroup {
        self.lines
    }

    /// The reader of three lines, each given by the base of its port and its number there.
    pub fn resolve(path: GpioPath, lines: [(u32, u8); HALL_LINES]) -> (r: Self)
        ensures
            forall|i: int|
                0 <= i < 3 ==> {
                    &&& #[trigger] r.group().line_addr(i) == reg::at(lines[i].0, gpio::istat(path))
                    &&& r.group().line_pin(i) == lines[i].1
                },
            r.group().wf() <==> (lines[0].1 < 32 && lines[1].1 < 32 && lines[2].1 < 32),
    {
        Self { lines: InputGroup::resolve(path, lines) }
    }

    /// The three lines as a code: line 0 in bit 0, line 1 in bit 1, line 2 in bit 2.
    pub fn read<B: Bus>(&self, bus: &mut B) -> (code: u8)
        requires
            self.group().wf(),
        ensures
            exists|v0: u32, v1: u32, v2: u32|
                #![trigger self.group().script(v0, v1, v2)]
                reg::ran(*old(bus), *final(bus), self.group().script(v0, v1, v2)) && code
                    == gpio_in::bit_of(v0, self.group().line_pin(0)) + 2 * gpio_in::bit_of(
                    v1,
                    self.group().line_pin(1),
                ) + 4 * gpio_in::bit_of(v2, self.group().line_pin(2)),
    {
        self.lines.read(bus)
    }
}

} // verus!
