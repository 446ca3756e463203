//! What the registers of a port hold after a pin was configured or driven, field by field.

use vstd::prelude::*;

use crate::bits;
use crate::descriptor::GpioPath;
use crate::gpio::{self, InputPull, PinRole};
use crate::reg::{self, Bus, Step};
use crate::trace;

verus! {

/// The field of `w` at bit `shift` that `mask` is as wide as.
pub open spec fn field(w: u32, shift: int, mask: u32) -> u32 {
    (w >> (shift as u32)) & mask
}

/// The number of a pin is what is left of its byte without the port.
pub proof fn law_pin_number(pin: u8)
    ensures
        gpio::pin_number(pin) == pin % 16,
{
    bits::nibbles(pin);
}

proof fn merged(w: u32, mask: u32, v: u32, shift: u32)
    requires
        v <= mask,
        mask == 3 && shift <= 30 || mask == 15 && shift <= 28,
    ensures
        field(reg::merge(w, mask << shift, v << shift), shift as int, mask) == v,
{
    bits::small_fields(v, v, shift);
    bits::field_read(w, mask, v, shift);
}

proof fn one_merged(w: u32, n: u32)
    requires
        n < 32,
    ensures
        reg::merge(w, 1u32 << n, 1u32 << n) & (1u32 << n) != 0,
        reg::merge(w, 1u32 << n, 0) & (1u32 << n) == 0,
{
    bits::one_bit(w, n);
    bits::no_bits(1u32 << n);
    bits::merge_fields(w, 1u32 << n, 0, 0);
}

/// On F10x pin `n` has the four bits from `4 * (n % 8)` on in the first or the second
/// configuration register: 0b1011 for an output of a peripheral, 0b1111 where it is open-drain,
/// 0b0100 for an input. No other register of the part changes.
pub proof fn law_f10x_role(port_base: u32, pin: u8, role: PinRole, w: u32, x: u32)
    ensures
        ({
            let n = pin % 16;
            let script = gpio::af_script(port_base, GpioPath::ApbCrlCrh, pin, role);
            let ctl = reg::at(port_base, if n < 8 {
                0x00
            } else {
                0x04
            });
            &&& field(reg::word_after(script, ctl, w), 4 * (n % 8), 15) == (match role {
                PinRole::Tx => 0xB,
                PinRole::Rx => 0x4,
                PinRole::I2cAfOpenDrain => 0xF,
                PinRole::SpiAfPushPull => 0xB,
                PinRole::SpiInput => 0x4,
                PinRole::TimerAfPushPull => 0xB,
                PinRole::GenTimerAfPushPull => 0xBu32,
            })
            &&& x != ctl ==> reg::word_after(script, x, w) == w
        }),
{
    broadcast use reg::group_after;

    law_pin_number(pin);
    let n = gpio::pin_number(pin);
    merged(w, 15, gpio::af_nibble(role.drive()), (4 * (n % 8)) as u32);
}

/// On F1x0 a pin that serves a peripheral is in the alternate mode, and has the number of its
/// function. Only the lines of an I2C are pulled up and open-drain. An output is fast; the output
/// type and the speed of an input are left alone.
pub proof fn law_f1x0_role(port_base: u32, pin: u8, role: PinRole, w: u32, x: u32)
    ensures
        ({
            let n = (pin % 16) as int;
            let script = gpio::af_script(port_base, GpioPath::AhbCtlAfsel, pin, role);
            let input = role is Rx || role is SpiInput;
            let ctl = reg::at(port_base, 0x00);
            let omode = reg::at(port_base, 0x04);
            let ospd = reg::at(port_base, 0x08);
            let pud = reg::at(port_base, 0x0C);
            let afsel = reg::at(port_base, if n < 8 {
                0x20
            } else {
                0x24
            });
            &&& field(reg::word_after(script, ctl, w), 2 * n, 3) == 2
            &&& field(reg::word_after(script, pud, w), 2 * n, 3) == (if role is I2cAfOpenDrain {
                1u32
            } else {
                0
            })
            &&& field(reg::word_after(script, afsel, w), 4 * (n % 8), 15) == (match role {
                PinRole::Tx => 1,
                PinRole::Rx => 1,
                PinRole::I2cAfOpenDrain => 1,
                PinRole::SpiAfPushPull => 0,
                PinRole::SpiInput => 0,
                PinRole::TimerAfPushPull => 2,
                PinRole::GenTimerAfPushPull => 2u32,
            })
            &&& !input ==> field(reg::word_after(script, ospd, w), 2 * n, 3) == 3
            &&& !input ==> (reg::word_after(script, omode, w) & (1u32 << (n as u32)) != 0) == (
            role is I2cAfOpenDrain)
            &&& x != ctl && x != pud && x != afsel && (input || x != ospd && x != omode)
                ==> reg::word_after(script, x, w) == w
        }),
{
    broadcast use reg::group_after;

    law_pin_number(pin);
    let n = gpio::pin_number(pin);
    let cfg = role.drive();
    merged(w, 3, 2, (2 * n) as u32);
    merged(w, 3, 3, (2 * n) as u32);
    merged(w, 3, if cfg.pull_up {
        1
    } else {
        0
    }, (2 * n) as u32);
    merged(w, 15, cfg.af, (4 * (n % 8)) as u32);
    one_merged(w, n);
}

/// On F10x an input is 0b0100 without a pull and 0b1000 with one, and the pull goes the way the
/// output register stands: the bit-operate register gets the set bit of the pin for up, its reset
/// bit for down, and nothing without a pull.
pub proof fn law_f10x_input(port_base: u32, pin: u8, pull: InputPull, w: u32, x: u32)
    ensures
        ({
            let n = (pin % 16) as int;
            let script = gpio::input_script(port_base, GpioPath::ApbCrlCrh, pin, pull);
            let ctl = reg::at(port_base, if n < 8 {
                0x00
            } else {
                0x04
            });
            let bop = reg::at(port_base, 0x10);
            &&& field(reg::word_after(script, ctl, w), 4 * (n % 8), 15) == (if pull is Floating {
                4u32
            } else {
                8
            })
            &&& trace::stores_of(script, bop) == (match pull {
                InputPull::Floating => Seq::<u32>::empty(),
                InputPull::PullUp => seq![1u32 << (n as u32)],
                InputPull::PullDown => seq![1u32 << ((n + 16) as u32)],
            })
            &&& x != ctl && x != bop ==> reg::word_after(script, x, w) == w
        }),
{
    broadcast use {reg::group_after, trace::group_of};

    law_pin_number(pin);
    let n = gpio::pin_number(pin);
    merged(w, 15, 4, (4 * (n % 8)) as u32);
    merged(w, 15, 8, (4 * (n % 8)) as u32);
}

/// On F1x0 an input is in mode 0, with the pull asked for: 0 for none, 1 for up, 2 for down.
pub proof fn law_f1x0_input(port_base: u32, pin: u8, pull: InputPull, w: u32, x: u32)
    ensures
        ({
            let n = (pin % 16) as int;
            let script = gpio::input_script(port_base, GpioPath::AhbCtlAfsel, pin, pull);
            let ctl = reg::at(port_base, 0x00);
            let pud = reg::at(port_base, 0x0C);
            &&& field(reg::word_after(script, ctl, w), 2 * n, 3) == 0
            &&& field(reg::word_after(script, pud, w), 2 * n, 3) == (match pull {
                InputPull::Floating => 0,
                InputPull::PullUp => 1,
                InputPull::PullDown => 2u32,
            })
            &&& x != ctl && x != pud ==> reg::word_after(script, x, w) == w
        }),
{
    broadcast use reg::group_after;

    law_pin_number(pin);
    let n = gpio::pin_number(pin);
    merged(w, 3, 0, (2 * n) as u32);
    merged(w, 3, 1, (2 * n) as u32);
    merged(w, 3, 2, (2 * n) as u32);
}

/// A push-pull output is 0b0011 on F10x; on F1x0 it is in mode 1, not open-drain, and fast.
pub proof fn law_output(port_base: u32, pin: u8, w: u32, x: u32)
    ensures
        ({
            let n = (pin % 16) as int;
            let f10x = gpio::output_script(port_base, GpioPath::ApbCrlCrh, pin);
            let f1x0 = gpio::output_script(port_base, GpioPath::AhbCtlAfsel, pin);
            let ctl = reg::at(port_base, if n < 8 {
                0x00
            } else {
                0x04
            });
            let mode = reg::at(port_base, 0x00);
            let omode = reg::at(port_base, 0x04);
            let ospd = reg::at(port_base, 0x08);
            &&& field(reg::word_after(f10x, ctl, w), 4 * (n % 8), 15) == 3
            &&& x != ctl ==> reg::word_after(f10x, x, w) == w
            &&& field(reg::word_after(f1x0, mode, w), 2 * n, 3) == 1
            &&& reg::word_after(f1x0, omode, w) & (1u32 << (n as u32)) == 0
            &&& field(reg::word_after(f1x0, ospd, w), 2 * n, 3) == 3
            &&& x != mode && x != omode && x != ospd ==> reg::word_after(f1x0, x, w) == w
        }),
{
    broadcast use reg::group_after;

    law_pin_number(pin);
    let n = gpio::pin_number(pin);
    merged(w, 15, 3, (4 * (n % 8)) as u32);
    merged(w, 3, 1, (2 * n) as u32);
    merged(w, 3, 3, (2 * n) as u32);
    one_merged(w, n);
}

/// Driving a pin is one store to the bit-operate register: bit `n` for high, bit `n + 16` for low.
pub proof fn law_drive(port_base: u32, pin: u8, high: bool)
    ensures
        ({
            let value = if high {
                1u32 << ((pin % 16) as u32)
            } else {
                1u32 << ((pin % 16 + 16) as u32)
            };
            &&& gpio::drive_step(port_base, GpioPath::ApbCrlCrh, pin, high) == (Step::Store {
                addr: reg::at(port_base, 0x10),
                value,
            })
            &&& gpio::drive_step(port_base, GpioPath::AhbCtlAfsel, pin, high) == (Step::Store {
                addr: reg::at(port_base, 0x18),
                value,
            })
        }),
{
    law_pin_number(pin);
}

/// The level of a pin is bit `n` of the input status register, and how it is driven is bit `n` of
/// the output register, as the one load returned it.
pub proof fn law_sample<B: Bus>(b0: B, b1: B, port_base: u32, path: GpioPath, pin: u8, r: bool)
    ensures
        ({
            let v = reg::last_load(b1.log());
            let f10x = path is ApbCrlCrh;
            &&& gpio::sampled(b0, b1, port_base, gpio::istat(path), pin, r) ==> {
                &&& b1.log() == b0.log().push(
                    reg::Access::Load {
                        addr: reg::at(port_base, if f10x {
                            0x08
                        } else {
                            0x10
                        }),
                        value: v,
                    },
                )
                &&& r == (field(v, (pin % 16) as int, 1) == 1)
            }
            &&& gpio::sampled(b0, b1, port_base, gpio::octl(path), pin, r) ==> {
                &&& b1.log() == b0.log().push(
                    reg::Access::Load {
                        addr: reg::at(port_base, if f10x {
                            0x0C
                        } else {
                            0x14
                        }),
                        value: v,
                    },
                )
                &&& r == (field(v, (pin % 16) as int, 1) == 1)
            }
        }),
{
    law_pin_number(pin);
    let v = reg::last_load(b1.log());
    bits::one_bit(v, gpio::pin_number(pin));
    if gpio::sampled(b0, b1, port_base, gpio::istat(path), pin, r) {
        let step = Step::Load { addr: reg::at(port_base, gpio::istat(path)), value: v };
        let mid = reg::last_step(b0.log(), b1.log(), Seq::empty(), step);
        assert(seq![step] =~= Seq::empty().push(step));
    }
    if gpio::sampled(b0, b1, port_base, gpio::octl(path), pin, r) {
        let step = Step::Load { addr: reg::at(port_base, gpio::octl(path)), value: v };
        let mid = reg::last_step(b0.log(), b1.log(), Seq::empty(), step);
        assert(seq![step] =~= Seq::empty().push(step));
    }
}

} // verus!
