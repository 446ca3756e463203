//! The named pins of each port.

use vstd::prelude::*;

use crate::descriptor::GpioPath;
use crate::gpio::{Floating, Input, Pin, PortPins};

verus! {

/// The sixteen pins of port A, each in its reset mode.
#[derive(Debug, Clone, Copy, PartialEq, Eq)]
pub struct PortAPins {
    pub pa0: Pin<Input<Floating>>,
    pub pa1: Pin<Input<Floating>>,
    pub pa2: Pin<Input<Floating>>,
    pub pa3: Pin<Input<Floating>>,
    pub pa4: Pin<Input<Floating>>,
    pub pa5: Pin<Input<Floating>>,
    pub pa6: Pin<Input<Floating>>,
    pub pa7: Pin<Input<Floating>>,
    pub pa8: Pin<Input<Floating>>,
    pub pa9: Pin<Input<Floating>>,
    pub pa10: Pin<Input<Floating>>,
    pub pa11: Pin<Input<Floating>>,
    pub pa12: Pin<Input<Floating>>,
    pub pa13: Pin<Input<Floating>>,
    pub pa14: Pin<Input<Floating>>,
    pub pa15: Pin<Input<Floating>>,
}

impl PortPins for PortAPins {
    open spec fn of_port(&self, base: u32, path: GpioPath) -> bool {
        &&& self.pa0.is_at(base, path, 0x00)
        &&& self.pa1.is_at(base, path, 0x01)
        &&& self.pa2.is_at(base, path, 0x02)
        &&& self.pa3.is_at(base, path, 0x03)
        &&& self.pa4.is_at(base, path, 0x04)
        &&& self.pa5.is_at(base, path, 0x05)
        &&& self.pa6.is_at(base, path, 0x06)
        &&& self.pa7.is_at(base, path, 0x07)
        &&& self.pa8.is_at(base, path, 0x08)
        &&& self.pa9.is_at(base, path, 0x09)
        &&& self.pa10.is_at(base, path, 0x0A)
        &&& self.pa11.is_at(base, path, 0x0B)
        &&& self.pa12.is_at(base, path, 0x0C)
        &&& self.pa13.is_at(base, path, 0x0D)
        &&& self.pa14.is_at(base, path, 0x0E)
        &&& self.pa15.is_at(base, path, 0x0F)
    }

    fn from_port(base: u32, path: GpioPath) -> (r: Self) {
        Self {
            pa0: Pin::new(base, path, 0x00),
            pa1: Pin::new(base, path, 0x01),
            pa2: Pin::new(base, path, 0x02),
            pa3: Pin::new(base, path, 0x03),
            pa4: Pin::new(base, path, 0x04),
            pa5: Pin::new(base, path, 0x05),
            pa6: Pin::new(base, path, 0x06),
            pa7: Pin::new(base, path, 0x07),
            pa8: Pin::new(base, path, 0x08),
            pa9: Pin::new(base, path, 0x09),
            pa10: Pin::new(base, path, 0x0A),
            pa11: Pin::new(base, path, 0x0B),
            pa12: Pin::new(base, path, 0x0C),
            pa13: Pin::new(base, path, 0x0D),
            pa14: Pin::new(base, path, 0x0E),
            pa15: Pin::new(base, path, 0x0F),
        }
    }
}

/// The sixteen pins of port B, each in its reset mode.
#[derive(Debug, Clone, Copy, PartialEq, Eq)]
pub struct PortBPins {
    pub pb0: Pin<Input<Floating>>,
    pub pb1: Pin<Input<Floating>>,
    pub pb2: Pin<Input<Floating>>,
    pub pb3: Pin<Input<Floating>>,
    pub pb4: Pin<Input<Floating>>,
    pub pb5: Pin<Input<Floating>>,
    pub pb6: Pin<Input<Floating>>,
    pub pb7: Pin<Input<Floating>>,
    pub pb8: Pin<Input<Floating>>,
    pub pb9: Pin<Input<Floating>>,
    pub pb10: Pin<Input<Floating>>,
    pub pb11: Pin<Input<Floating>>,
    pub pb12: Pin<Input<Floating>>,
    pub pb13: Pin<Input<Floating>>,
    pub pb14: Pin<Input<Floating>>,
    pub pb15: Pin<Input<Floating>>,
}

impl PortPins for PortBPins {
    open spec fn of_port(&self, base: u32, path: GpioPath) -> bool {
        &&& self.pb0.is_at(base, path, 0x10)
        &&& self.pb1.is_at(base, path, 0x11)
        &&& self.pb2.is_at(base, path, 0x12)
        &&& self.pb3.is_at(base, path, 0x13)
        &&& self.pb4.is_at(base, path, 0x14)
        &&& self.pb5.is_at(base, path, 0x15)
        &&& self.pb6.is_at(base, path, 0x16)
        &&& self.pb7.is_at(base, path, 0x17)
        &&& self.pb8.is_at(base, path, 0x18)
        &&& self.pb9.is_at(base, path, 0x19)
        &&& self.pb10.is_at(base, path, 0x1A)
        &&& self.pb11.is_at(base, path, 0x1B)
        &&& self.pb12.is_at(base, path, 0x1C)
        &&& self.pb13.is_at(base, path, 0x1D)
        &&& self.pb14.is_at(base, path, 0x1E)
        &&& self.pb15.is_at(base, path, 0x1F)
    }

    fn from_port(base: u32, path: GpioPath) -> (r: Self) {
        Self {
            pb0: Pin::new(base, path, 0x10),
            pb1: Pin::new(base, path, 0x11),
            pb2: Pin::new(base, path, 0x12),
            pb3: Pin::new(base, path, 0x13),
            pb4: Pin::new(base, path, 0x14),
            pb5: Pin::new(base, path, 0x15),
            pb6: Pin::new(base, path, 0x16),
            pb7: Pin::new(base, path, 0x17),
            pb8: Pin::new(base, path, 0x18),
            pb9: Pin::new(base, path, 0x19),
            pb10: Pin::new(base, path, 0x1A),
            pb11: Pin::new(base, path, 0x1B),
            pb12: Pin::new(base, path, 0x1C),
            pb13: Pin::new(base, path, 0x1D),
            pb14: Pin::new(base, path, 0x1E),
            pb15: Pin::new(base, path, 0x1F),
        }
    }
}

/// The sixteen pins of port C, each in its reset mode.
#[derive(Debug, Clone, Copy, PartialEq, Eq)]
pub struct PortCPins {
    pub pc0: Pin<Input<Floating>>,
    pub pc1: Pin<Input<Floating>>,
    pub pc2: Pin<Input<Floating>>,
    pub pc3: Pin<Input<Floating>>,
    pub pc4: Pin<Input<Floating>>,
    pub pc5: Pin<Input<Floating>>,
    pub pc6: Pin<Input<Floating>>,
    pub pc7: Pin<Input<Floating>>,
    pub pc8: Pin<Input<Floating>>,
    pub pc9: Pin<Input<Floating>>,
    pub pc10: Pin<Input<Floating>>,
    pub pc11: Pin<Input<Floating>>,
    pub pc12: Pin<Input<Floating>>,
    pub pc13: Pin<Input<Floating>>,
    pub pc14: Pin<Input<Floating>>,
    pub pc15: Pin<Input<Floating>>,
}

impl PortPins for PortCPins {
    open spec fn of_port(&self, base: u32, path: GpioPath) -> bool {
        &&& self.pc0.is_at(base, path, 0x20)
        &&& self.pc1.is_at(base, path, 0x21)
        &&& self.pc2.is_at(base, path, 0x22)
        &&& self.pc3.is_at(base, path, 0x23)
        &&& self.pc4.is_at(base, path, 0x24)
        &&& self.pc5.is_at(base, path, 0x25)
        &&& self.pc6.is_at(base, path, 0x26)
        &&& self.pc7.is_at(base, path, 0x27)
        &&& self.pc8.is_at(base, path, 0x28)
        &&& self.pc9.is_at(base, path, 0x29)
        &&& self.pc10.is_at(base, path, 0x2A)
        &&& self.pc11.is_at(base, path, 0x2B)
        &&& self.pc12.is_at(base, path, 0x2C)
        &&& self.pc13.is_at(base, path, 0x2D)
        &&& self.pc14.is_at(base, path, 0x2E)
        &&& self.pc15.is_at(base, path, 0x2F)
    }

    fn from_port(base: u32, path: GpioPath) -> (r: Self) {
        Self {
            pc0: Pin::new(base, path, 0x20),
            pc1: Pin::new(base, path, 0x21),
            pc2: Pin::new(base, path, 0x22),
            pc3: Pin::new(base, path, 0x23),
            pc4: Pin::new(base, path, 0x24),
            pc5: Pin::new(base, path, 0x25),
            pc6: Pin::new(base, path, 0x26),
            pc7: Pin::new(base, path, 0x27),
            pc8: Pin::new(base, path, 0x28),
            pc9: Pin::new(base, path, 0x29),
            pc10: Pin::new(base, path, 0x2A),
            pc11: Pin::new(base, path, 0x2B),
            pc12: Pin::new(base, path, 0x2C),
            pc13: Pin::new(base, path, 0x2D),
            pc14: Pin::new(base, path, 0x2E),
            pc15: Pin::new(base, path, 0x2F),
        }
    }
}

/// The sixteen pins of port D, each in its reset mode.
#[derive(Debug, Clone, Copy, PartialEq, Eq)]
pub struct PortDPins {
    pub pd0: Pin<Input<Floating>>,
    pub pd1: Pin<Input<Floating>>,
    pub pd2: Pin<Input<Floating>>,
    pub pd3: Pin<Input<Floating>>,
    pub pd4: Pin<Input<Floating>>,
    pub pd5: Pin<Input<Floating>>,
    pub pd6: Pin<Input<Floating>>,
    pub pd7: Pin<Input<Floating>>,
    pub pd8: Pin<Input<Floating>>,
    pub pd9: Pin<Input<Floating>>,
    pub pd10: Pin<Input<Floating>>,
    pub pd11: Pin<Input<Floating>>,
    pub pd12: Pin<Input<Floating>>,
    pub pd13: Pin<Input<Floating>>,
    pub pd14: Pin<Input<Floating>>,
    pub pd15: Pin<Input<Floating>>,
}

impl PortPins for PortDPins {
    open spec fn of_port(&self, base: u32, path: GpioPath) -> bool {
        &&& self.pd0.is_at(base, path, 0x30)
        &&& self.pd1.is_at(base, path, 0x31)
        &&& self.pd2.is_at(base, path, 0x32)
        &&& self.pd3.is_at(base, path, 0x33)
        &&& self.pd4.is_at(base, path, 0x34)
        &&& self.pd5.is_at(base, path, 0x35)
        &&& self.pd6.is_at(base, path, 0x36)
        &&& self.pd7.is_at(base, path, 0x37)
        &&& self.pd8.is_at(base, path, 0x38)
        &&& self.pd9.is_at(base, path, 0x39)
        &&& self.pd10.is_at(base, path, 0x3A)
        &&& self.pd11.is_at(base, path, 0x3B)
        &&& self.pd12.is_at(base, path, 0x3C)
        &&& self.pd13.is_at(base, path, 0x3D)
        &&& self.pd14.is_at(base, path, 0x3E)
        &&& self.pd15.is_at(base, path, 0x3F)
    }

    fn from_port(base: u32, path: GpioPath) -> (r: Self) {
        Self {
            pd0: Pin::new(base, path, 0x30),
            pd1: Pin::new(base, path, 0x31),
            pd2: Pin::new(base, path, 0x32),
            pd3: Pin::new(base, path, 0x33),
            pd4: Pin::new(base, path, 0x34),
            pd5: Pin::new(base, path, 0x35),
            pd6: Pin::new(base, path, 0x36),
            pd7: Pin::new(base, path, 0x37),
            pd8: Pin::new(base, path, 0x38),
            pd9: Pin::new(base, path, 0x39),
            pd10: Pin::new(base, path, 0x3A),
            pd11: Pin::new(base, path, 0x3B),
            pd12: Pin::new(base, path, 0x3C),
            pd13: Pin::new(base, path, 0x3D),
            pd14: Pin::new(base, path, 0x3E),
            pd15: Pin::new(base, path, 0x3F),
        }
    }
}

/// The sixteen pins of port F, each in its reset mode.
#[derive(Debug, Clone, Copy, PartialEq, Eq)]
pub struct PortFPins {
    pub pf0: Pin<Input<Floating>>,
    pub pf1: Pin<Input<Floating>>,
    pub pf2: Pin<Input<Floating>>,
    pub pf3: Pin<Input<Floating>>,
    pub pf4: Pin<Input<Floating>>,
    pub pf5: Pin<Input<Floating>>,
    pub pf6: Pin<Input<Floating>>,
    pub pf7: Pin<Input<Floating>>,
    pub pf8: Pin<Input<Floating>>,
    pub pf9: Pin<Input<Floating>>,
    pub pf10: Pin<Input<Floating>>,
    pub pf11: Pin<Input<Floating>>,
    pub pf12: Pin<Input<Floating>>,
    pub pf13: Pin<Input<Floating>>,
    pub pf14: Pin<Input<Floating>>,
    pub pf15: Pin<Input<Floating>>,
}

impl PortPins for PortFPins {
    open spec fn of_port(&self, base: u32, path: GpioPath) -> bool {
        &&& self.pf0.is_at(base, path, 0x50)
        &&& self.pf1.is_at(base, path, 0x51)
        &&& self.pf2.is_at(base, path, 0x52)
        &&& self.pf3.is_at(base, path, 0x53)
        &&& self.pf4.is_at(base, path, 0x54)
        &&& self.pf5.is_at(base, path, 0x55)
        &&& self.pf6.is_at(base, path, 0x56)
        &&& self.pf7.is_at(base, path, 0x57)
        &&& self.pf8.is_at(base, path, 0x58)
        &&& self.pf9.is_at(base, path, 0x59)
        &&& self.pf10.is_at(base, path, 0x5A)
        &&& self.pf11.is_at(base, path, 0x5B)
        &&& self.pf12.is_at(base, path, 0x5C)
        &&& self.pf13.is_at(base, path, 0x5D)
        &&& self.pf14.is_at(base, path, 0x5E)
        &&& self.pf15.is_at(base, path, 0x5F)
    }

    fn from_port(base: u32, path: GpioPath) -> (r: Self) {
        Self {
            pf0: Pin::new(base, path, 0x50),
            pf1: Pin::new(base, path, 0x51),
            pf2: Pin::new(base, path, 0x52),
            pf3: Pin::new(base, path, 0x53),
            pf4: Pin::new(base, path, 0x54),
            pf5: Pin::new(base, path, 0x55),
            pf6: Pin::new(base, path, 0x56),
            pf7: Pin::new(base, path, 0x57),
            pf8: Pin::new(base, path, 0x58),
            pf9: Pin::new(base, path, 0x59),
            pf10: Pin::new(base, path, 0x5A),
            pf11: Pin::new(base, path, 0x5B),
            pf12: Pin::new(base, path, 0x5C),
            pf13: Pin::new(base, path, 0x5D),
            pf14: Pin::new(base, path, 0x5E),
            pf15: Pin::new(base, path, 0x5F),
        }
    }
}

/// Pin `i` of port A is number `i` there, and its byte names the port.
pub proof fn law_port_a(pins: PortAPins, base: u32, path: GpioPath, i: int)
    requires
        pins.of_port(base, path),
        0 <= i < 16,
    ensures
        seq![
            pins.pa0,
            pins.pa1,
            pins.pa2,
            pins.pa3,
            pins.pa4,
            pins.pa5,
            pins.pa6,
            pins.pa7,
            pins.pa8,
            pins.pa9,
            pins.pa10,
            pins.pa11,
            pins.pa12,
            pins.pa13,
            pins.pa14,
            pins.pa15,
        ][i].is_at(base, path, (16 * 0 + i) as u8),
{
    assert(i == 0 || i == 1 || i == 2 || i == 3 || i == 4 || i == 5 || i == 6 || i == 7 || i == 8 || i
        == 9 || i == 10 || i == 11 || i == 12 || i == 13 || i == 14 || i == 15);
}

/// Pin `i` of port B is number `i` there, and its byte names the port.
pub proof fn law_port_b(pins: PortBPins, base: u32, path: GpioPath, i: int)
    requires
        pins.of_port(base, path),
        0 <= i < 16,
    ensures
        seq![
            pins.pb0,
            pins.pb1,
            pins.pb2,
            pins.pb3,
            pins.pb4,
            pins.pb5,
            pins.pb6,
            pins.pb7,
            pins.pb8,
            pins.pb9,
            pins.pb10,
            pins.pb11,
            pins.pb12,
            pins.pb13,
            pins.pb14,
            pins.pb15,
        ][i].is_at(base, path, (16 * 1 + i) as u8),
{
    assert(i == 0 || i == 1 || i == 2 || i == 3 || i == 4 || i == 5 || i == 6 || i == 7 || i == 8 || i
        == 9 || i == 10 || i == 11 || i == 12 || i == 13 || i == 14 || i == 15);
}

/// Pin `i` of port C is number `i` there, and its byte names the port.
pub proof fn law_port_c(pins: PortCPins, base: u32, path: GpioPath, i: int)
    requires
        pins.of_port(base, path),
        0 <= i < 16,
    ensures
        seq![
            pins.pc0,
            pins.pc1,
            pins.pc2,
            pins.pc3,
            pins.pc4,
            pins.pc5,
            pins.pc6,
            pins.pc7,
            pins.pc8,
            pins.pc9,
            pins.pc10,
            pins.pc11,
            pins.pc12,
            pins.pc13,
            pins.pc14,
            pins.pc15,
        ][i].is_at(base, path, (16 * 2 + i) as u8),
{
    assert(i == 0 || i == 1 || i == 2 || i == 3 || i == 4 || i == 5 || i == 6 || i == 7 || i == 8 || i
        == 9 || i == 10 || i == 11 || i == 12 || i == 13 || i == 14 || i == 15);
}

/// Pin `i` of port D is number `i` there, and its byte names the port.
pub proof fn law_port_d(pins: PortDPins, base: u32, path: GpioPath, i: int)
    requires
        pins.of_port(base, path),
        0 <= i < 16,
    ensures
        seq![
            pins.pd0,
            pins.pd1,
            pins.pd2,
            pins.pd3,
            pins.pd4,
            pins.pd5,
            pins.pd6,
            pins.pd7,
            pins.pd8,
            pins.pd9,
            pins.pd10,
            pins.pd11,
            pins.pd12,
            pins.pd13,
            pins.pd14,
            pins.pd15,
        ][i].is_at(base, path, (16 * 3 + i) as u8),
{
    assert(i == 0 || i == 1 || i == 2 || i == 3 || i == 4 || i == 5 || i == 6 || i == 7 || i == 8 || i
        == 9 || i == 10 || i == 11 || i == 12 || i == 13 || i == 14 || i == 15);
}

/// Pin `i` of port F is number `i` there, and its byte names the port.
pub proof fn law_port_f(pins: PortFPins, base: u32, path: GpioPath, i: int)
    requires
        pins.of_port(base, path),
        0 <= i < 16,
    ensures
        seq![
            pins.pf0,
            pins.pf1,
            pins.pf2,
            pins.pf3,
            pins.pf4,
            pins.pf5,
            pins.pf6,
            pins.pf7,
            pins.pf8,
            pins.pf9,
            pins.pf10,
            pins.pf11,
            pins.pf12,
            pins.pf13,
            pins.pf14,
            pins.pf15,
        ][i].is_at(base, path, (16 * 5 + i) as u8),
{
    assert(i == 0 || i == 1 || i == 2 || i == 3 || i == 4 || i == 5 || i == 6 || i == 7 || i == 8 || i
        == 9 || i == 10 || i == 11 || i == 12 || i == 13 || i == 14 || i == 15);
}

} // verus!
