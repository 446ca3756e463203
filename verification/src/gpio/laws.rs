//! What configuring a pin does to its port, and what it leaves alone.

use vstd::prelude::*;

use crate::bits;
use crate::descriptor::GpioPath;
use crate::gpio::{
    self, InputPull, PinRole, F10X_CTL0, F10X_CTL1, F1X0_AFSEL0, F1X0_AFSEL1, F1X0_CTL, F1X0_OMODE,
    F1X0_OSPD, F1X0_PUD,
};
use crate::reg::{self, Step};

verus! {

/// The bits of pin `m` in the configuration register at `offset`.
pub open spec fn is_field(path: GpioPath, m: u32, offset: u32, mask: u32) -> bool {
    match path {
        GpioPath::ApbCrlCrh => {
            &&& offset == if m < 8 {
                F10X_CTL0
            } else {
                F10X_CTL1
            }
            &&& mask == 15u32 << ((4 * (m % 8)) as u32)
        },
        GpioPath::AhbCtlAfsel => {
            ||| (offset == F1X0_CTL || offset == F1X0_OSPD || offset == F1X0_PUD) && mask == 3u32
                << ((2 * m) as u32)
            ||| offset == F1X0_OMODE && mask == 1u32 << m
            ||| offset == (if m < 8 {
                F1X0_AFSEL0
            } else {
                F1X0_AFSEL1
            }) && mask == 15u32 << ((4 * (m % 8)) as u32)
        },
    }
}

/// A step that keeps the bits of `mask` in the register at `addr`.
pub open spec fn keeps(step: Step, addr: u32, mask: u32) -> bool {
    match step {
        Step::Modify { addr: a, mask: touched, .. } => a != addr || mask & touched == 0,
        Step::Store { addr: a, .. } => a != addr,
        _ => true,
    }
}

proof fn kept(script: Seq<Step>, addr: u32, mask: u32, w: u32)
    requires
        forall|i: int| 0 <= i < script.len() ==> keeps(#[trigger] script[i], addr, mask),
    ensures
        reg::word_after(script, addr, w) & mask == w & mask,
    decreases script.len(),
{
    if script.len() > 0 {
        let rest = script.drop_last();
        assert forall|i: int| 0 <= i < rest.len() implies keeps(#[trigger] rest[i], addr, mask) by {
            assert(rest[i] == script[i]);
        }
        kept(rest, addr, mask, w);
        let u = reg::word_after(rest, addr, w);
        let last = script[script.len() - 1];
        assert(keeps(last, addr, mask));
        match last {
            Step::Modify { addr: a, mask: touched, bits: b } => {
                bits::merge_fields(u, touched, b, mask);
            },
            _ => {},
        }
    }
}

/// Configuring a pin, for whatever it serves, leaves the configuration of every other pin of its
/// port as it is.
pub proof fn law_other_pins_are_left(
    port_base: u32,
    path: GpioPath,
    pin: u8,
    role: PinRole,
    pull: InputPull,
    m: u32,
    offset: u32,
    mask: u32,
    w: u32,
)
    requires
        m < 16,
        m != gpio::pin_number(pin),
        is_field(path, m, offset, mask),
    ensures
        ({
            let addr = reg::at(port_base, offset);
            &&& reg::word_after(gpio::af_script(port_base, path, pin, role), addr, w) & mask == w
                & mask
            &&& reg::word_after(gpio::input_script(port_base, path, pin, pull), addr, w) & mask
                == w & mask
            &&& reg::word_after(gpio::output_script(port_base, path, pin), addr, w) & mask == w
                & mask
        }),
{
    let n = gpio::pin_number(pin);
    bits::nibbles(pin);
    bits::pin_fields(n, m);
    let addr = reg::at(port_base, offset);
    kept(gpio::af_script(port_base, path, pin, role), addr, mask, w);
    kept(gpio::input_script(port_base, path, pin, pull), addr, mask, w);
    kept(gpio::output_script(port_base, path, pin), addr, mask, w);
}

/// What a pin is configured to for a role: on F10x its four configuration bits; on F1x0 its mode,
/// pull and function number, and where it drives the line its output type and speed.
pub proof fn law_pin_takes_its_role(port_base: u32, pin: u8, role: PinRole, w: u32)
    ensures
        ({
            let n = gpio::pin_number(pin);
            let cfg = role.drive();
            let f10x = gpio::af_script(port_base, GpioPath::ApbCrlCrh, pin, role);
            let f1x0 = gpio::af_script(port_base, GpioPath::AhbCtlAfsel, pin, role);
            let two = 3u32 << ((2 * n) as u32);
            let four = 15u32 << ((4 * (n % 8)) as u32);
            &&& reg::word_after(
                f10x,
                reg::at(port_base, if n < 8 {
                    F10X_CTL0
                } else {
                    F10X_CTL1
                }),
                w,
            ) & four == gpio::af_nibble(cfg) << ((4 * (n % 8)) as u32)
            &&& reg::word_after(f1x0, reg::at(port_base, F1X0_CTL), w) & two == 2u32 << ((2 * n)
                as u32)
            &&& reg::word_after(f1x0, reg::at(port_base, F1X0_PUD), w) & two == (if cfg.pull_up {
                1u32
            } else {
                0
            }) << ((2 * n) as u32)
            &&& reg::word_after(
                f1x0,
                reg::at(port_base, if n < 8 {
                    F1X0_AFSEL0
                } else {
                    F1X0_AFSEL1
                }),
                w,
            ) & four == cfg.af << ((4 * (n % 8)) as u32)
            &&& cfg.output ==> reg::word_after(f1x0, reg::at(port_base, F1X0_OSPD), w) & two == 3u32
                << ((2 * n) as u32)
            &&& !cfg.output ==> reg::word_after(f1x0, reg::at(port_base, F1X0_OSPD), w) == w
            &&& cfg.output ==> (reg::word_after(f1x0, reg::at(port_base, F1X0_OMODE), w) & (1u32
                << n) != 0) == cfg.open_drain
            &&& !cfg.output ==> reg::word_after(f1x0, reg::at(port_base, F1X0_OMODE), w) == w
        }),
{
    broadcast use reg::group_after;

    let n = gpio::pin_number(pin);
    let cfg = role.drive();
    bits::nibbles(pin);
    let pull: u32 = if cfg.pull_up {
        1
    } else {
        0
    };
    let two = 3u32 << ((2 * n) as u32);
    let four = 15u32 << ((4 * (n % 8)) as u32);
    bits::field_value(gpio::af_nibble(cfg), n);
    bits::field_value(cfg.af, n);
    bits::field_value(pull, n);
    bits::field_value(2, n);
    bits::field_value(3, n);
    bits::merge_fields(w, four, gpio::af_nibble(cfg) << ((4 * (n % 8)) as u32), 0);
    bits::merge_fields(w, four, cfg.af << ((4 * (n % 8)) as u32), 0);
    bits::merge_fields(w, two, 2u32 << ((2 * n) as u32), 0);
    bits::merge_fields(w, two, 3u32 << ((2 * n) as u32), 0);
    bits::merge_fields(w, two, pull << ((2 * n) as u32), 0);
    bits::merge_fields(w, 1u32 << n, 1u32 << n, 0);
    bits::merge_fields(w, 1u32 << n, 0, 0);
}

/// A timer output and a SPI output are driven alike: on F10x they are the same, and on F1x0 only
/// the function number differs.
pub proof fn law_timer_and_spi_differ_in_function_only(
    port_base: u32,
    pin: u8,
    offset: u32,
    w: u32,
)
    requires
        offset < 0x100,
        offset != F1X0_AFSEL0,
        offset != F1X0_AFSEL1,
    ensures
        gpio::af_script(port_base, GpioPath::ApbCrlCrh, pin, PinRole::TimerAfPushPull)
            == gpio::af_script(port_base, GpioPath::ApbCrlCrh, pin, PinRole::SpiAfPushPull),
        reg::word_after(
            gpio::af_script(port_base, GpioPath::AhbCtlAfsel, pin, PinRole::TimerAfPushPull),
            reg::at(port_base, offset),
            w,
        ) == reg::word_after(
            gpio::af_script(port_base, GpioPath::AhbCtlAfsel, pin, PinRole::SpiAfPushPull),
            reg::at(port_base, offset),
            w,
        ),
{
    broadcast use reg::group_after;

}

/// Driving a pin writes nothing for any other pin, neither its set nor its reset bit.
pub proof fn law_driving_spares_other_pins(
    port_base: u32,
    path: GpioPath,
    pin: u8,
    high: bool,
    m: u32,
)
    requires
        m < 16,
        m != gpio::pin_number(pin),
    ensures
        gpio::drive_step(port_base, path, pin, high) matches Step::Store { value, .. } && (
        0x0001_0001u32 << m) & value == 0,
{
    bits::nibbles(pin);
    bits::pin_fields(gpio::pin_number(pin), m);
}

} // verus!
