//! GPIO pins under both register models.
//!
//! The F10x packs four configuration bits per pin into `CTL0` (pins 0 to 7) and `CTL1` (pins 8 to
//! 15). The F1x0 has a mode field in `CTL`, an output type in `OMODE`, a speed in `OSPD`, a pull
//! in `PUD`, and a function number in `AFSEL0`/`AFSEL1`.

use core::marker::PhantomData;
use vstd::prelude::*;

use crate::bits;
use crate::descriptor::GpioPath;
use crate::reg::{self, Bus, Reg32, Step};

pub mod gpio_in;
pub mod laws;
pub mod registers;
pub mod ports;

pub use gpio_in::InputGroup;
pub use ports::{PortAPins, PortBPins, PortCPins, PortDPins, PortFPins};

verus! {

pub const F10X_CTL0: u32 = 0x00;

pub const F10X_CTL1: u32 = 0x04;

pub const F10X_ISTAT: u32 = 0x08;

pub const F10X_OCTL: u32 = 0x0C;

pub const F10X_BOP: u32 = 0x10;

pub const F1X0_CTL: u32 = 0x00;

pub const F1X0_OMODE: u32 = 0x04;

pub const F1X0_OSPD: u32 = 0x08;

pub const F1X0_PUD: u32 = 0x0C;

pub const F1X0_ISTAT: u32 = 0x10;

pub const F1X0_OCTL: u32 = 0x14;

pub const F1X0_BOP: u32 = 0x18;

pub const F1X0_AFSEL0: u32 = 0x20;

pub const F1X0_AFSEL1: u32 = 0x24;

/// `CTL` mode: input.
pub const F1X0_MODE_INPUT: u32 = 0;

/// `CTL` mode: output.
pub const F1X0_MODE_OUTPUT: u32 = 1;

/// `CTL` mode: alternate function.
pub const F1X0_MODE_AF: u32 = 2;

/// `OSPD`: 50 MHz.
pub const F1X0_OSPEED_50MHZ: u32 = 3;

/// `PUD`: no pull.
pub const F1X0_PUPD_NONE: u32 = 0;

/// `PUD`: pull-up.
pub const F1X0_PUPD_PULLUP: u32 = 1;

/// `PUD`: pull-down.
pub const F1X0_PUPD_PULLDOWN: u32 = 2;

/// The number of a pin within its port: the low half of its byte.
pub open spec fn pin_number(pin: u8) -> u32 {
    (pin & 0x0F) as u32
}

fn number(pin: u8) -> (n: u32)
    ensures
        n == pin_number(pin),
        n < 16,
{
    proof {
        bits::nibbles(pin);
    }
    (pin & 0x0F) as u32
}

/// Setting the four F10x configuration bits of pin `n`.
pub open spec fn nibble_step(port_base: u32, n: u32, nibble: u32) -> Step {
    let shift = (4 * (n % 8)) as u32;
    Step::Modify {
        addr: reg::at(port_base, if n < 8 {
            F10X_CTL0
        } else {
            F10X_CTL1
        }),
        mask: 0xFu32 << shift,
        bits: nibble << shift,
    }
}

fn set_nibble<B: Bus>(bus: &mut B, port_base: u32, n: u32, nibble: u32)
    requires
        n < 16,
    ensures
        reg::did(*old(bus), *final(bus), nibble_step(port_base, n, nibble)),
{
    let (offset, within): (u32, u32) = if n < 8 {
        (F10X_CTL0, n)
    } else {
        (F10X_CTL1, n - 8)
    };
    let shift: u32 = 4 * within;
    Reg32::new(port_base, offset).modify(bus, 0xFu32 << shift, nibble << shift);
}

/// Setting the two-bit field of pin `n` in the F1x0 register at `offset`.
pub open spec fn pair_step(port_base: u32, offset: u32, n: u32, value: u32) -> Step {
    let shift = (2 * n) as u32;
    Step::Modify {
        addr: reg::at(port_base, offset),
        mask: 0x3u32 << shift,
        bits: value << shift,
    }
}

fn set_pair<B: Bus>(bus: &mut B, port_base: u32, offset: u32, n: u32, value: u32)
    requires
        n < 16,
    ensures
        reg::did(*old(bus), *final(bus), pair_step(port_base, offset, n, value)),
{
    let shift: u32 = 2 * n;
    Reg32::new(port_base, offset).modify(bus, 0x3u32 << shift, value << shift);
}

/// Setting the F1x0 output type of pin `n`.
pub open spec fn omode_step(port_base: u32, n: u32, open_drain: bool) -> Step {
    Step::Modify {
        addr: reg::at(port_base, F1X0_OMODE),
        mask: 1u32 << n,
        bits: if open_drain {
            1u32 << n
        } else {
            0
        },
    }
}

fn set_omode<B: Bus>(bus: &mut B, port_base: u32, n: u32, open_drain: bool)
    requires
        n < 16,
    ensures
        reg::did(*old(bus), *final(bus), omode_step(port_base, n, open_drain)),
{
    let value: u32 = if open_drain {
        1u32 << n
    } else {
        0
    };
    Reg32::new(port_base, F1X0_OMODE).modify(bus, 1u32 << n, value);
}

/// Selecting the F1x0 alternate function of pin `n`.
pub open spec fn afsel_step(port_base: u32, n: u32, af: u32) -> Step {
    let shift = (4 * (n % 8)) as u32;
    Step::Modify {
        addr: reg::at(port_base, if n < 8 {
            F1X0_AFSEL0
        } else {
            F1X0_AFSEL1
        }),
        mask: 0xFu32 << shift,
        bits: af << shift,
    }
}

fn set_afsel<B: Bus>(bus: &mut B, port_base: u32, n: u32, af: u32)
    requires
        n < 16,
    ensures
        reg::did(*old(bus), *final(bus), afsel_step(port_base, n, af)),
{
    let (offset, within): (u32, u32) = if n < 8 {
        (F1X0_AFSEL0, n)
    } else {
        (F1X0_AFSEL1, n - 8)
    };
    let shift: u32 = 4 * within;
    Reg32::new(port_base, offset).modify(bus, 0xFu32 << shift, af << shift);
}

// --- alternate functions ----------------------------------------------------------------------

/// What a pin serves.
#[derive(Debug, Clone, Copy, PartialEq, Eq, Structural)]
pub enum PinRole {
    /// USART transmit.
    Tx,
    /// USART receive.
    Rx,
    /// I2C clock or data.
    I2cAfOpenDrain,
    /// SPI clock or data out.
    SpiAfPushPull,
    /// SPI data in.
    SpiInput,
    /// An advanced-timer gate output.
    TimerAfPushPull,
    /// A general-purpose timer output.
    GenTimerAfPushPull,
}

/// How a pin is driven.
#[derive(Debug, Clone, Copy, PartialEq, Eq, Structural)]
pub struct PinConfig {
    /// The pin drives the line.
    pub output: bool,
    /// It drives it open-drain.
    pub open_drain: bool,
    /// It is pulled up (F1x0).
    pub pull_up: bool,
    /// The F1x0 alternate function number.
    pub af: u32,
}

impl PinRole {
    /// How a pin of this role is driven.
    pub open spec fn drive(self) -> PinConfig {
        match self {
            PinRole::Tx => PinConfig { output: true, open_drain: false, pull_up: false, af: 1 },
            PinRole::Rx => PinConfig { output: false, open_drain: false, pull_up: false, af: 1 },
            PinRole::I2cAfOpenDrain => PinConfig {
                output: true,
                open_drain: true,
                pull_up: true,
                af: 1,
            },
            PinRole::SpiAfPushPull => PinConfig {
                output: true,
                open_drain: false,
                pull_up: false,
                af: 0,
            },
            PinRole::SpiInput => PinConfig {
                output: false,
                open_drain: false,
                pull_up: false,
                af: 0,
            },
            PinRole::TimerAfPushPull => PinConfig {
                output: true,
                open_drain: false,
                pull_up: false,
                af: 2,
            },
            PinRole::GenTimerAfPushPull => PinConfig {
                output: true,
                open_drain: false,
                pull_up: false,
                af: 2,
            },
        }
    }

    fn config(self) -> (r: PinConfig)
        ensures
            r == self.drive(),
    {
        match self {
            PinRole::Tx => PinConfig { output: true, open_drain: false, pull_up: false, af: 1 },
            PinRole::Rx => PinConfig { output: false, open_drain: false, pull_up: false, af: 1 },
            PinRole::I2cAfOpenDrain => PinConfig {
                output: true,
                open_drain: true,
                pull_up: true,
                af: 1,
            },
            PinRole::SpiAfPushPull => PinConfig {
                output: true,
                open_drain: false,
                pull_up: false,
                af: 0,
            },
            PinRole::SpiInput => PinConfig {
                output: false,
                open_drain: false,
                pull_up: false,
                af: 0,
            },
            PinRole::TimerAfPushPull | PinRole::GenTimerAfPushPull => PinConfig {
                output: true,
                open_drain: false,
                pull_up: false,
                af: 2,
            },
        }
    }
}

/// The F10x configuration bits of an alternate-function pin: floating input, or 50 MHz output,
/// open-drain or push-pull.
pub open spec fn af_nibble(cfg: PinConfig) -> u32 {
    if !cfg.output {
        0x4
    } else if cfg.open_drain {
        0xF
    } else {
        0xB
    }
}

/// Giving the F1x0 pin `n` to its function: mode, pull and function number, and for a pin that
/// drives the line its output type and speed.
pub open spec fn f1x0_af_script(port_base: u32, n: u32, cfg: PinConfig) -> Seq<Step> {
    let routed = Seq::empty().push(pair_step(port_base, F1X0_CTL, n, F1X0_MODE_AF)).push(
        pair_step(port_base, F1X0_PUD, n, if cfg.pull_up {
            F1X0_PUPD_PULLUP
        } else {
            F1X0_PUPD_NONE
        }),
    ).push(afsel_step(port_base, n, cfg.af));
    if cfg.output {
        routed.push(omode_step(port_base, n, cfg.open_drain)).push(
            pair_step(port_base, F1X0_OSPD, n, F1X0_OSPEED_50MHZ),
        )
    } else {
        routed
    }
}

/// Giving a pin to a role.
pub open spec fn af_script(port_base: u32, path: GpioPath, pin: u8, role: PinRole) -> Seq<Step> {
    match path {
        GpioPath::ApbCrlCrh => seq![
            nibble_step(port_base, pin_number(pin), af_nibble(role.drive())),
        ],
        GpioPath::AhbCtlAfsel => f1x0_af_script(port_base, pin_number(pin), role.drive()),
    }
}

/// Give the pin with byte `pin` (port in the high half, number in the low) of the port at
/// `port_base` to a role.
pub fn configure_af<B: Bus>(bus: &mut B, port_base: u32, path: GpioPath, pin: u8, role: PinRole)
    ensures
        reg::ran(*old(bus), *final(bus), af_script(port_base, path, pin, role)),
{
    let n: u32 = number(pin);
    let cfg: PinConfig = role.config();
    match path {
        GpioPath::ApbCrlCrh => configure_f10x(bus, port_base, n, &cfg),
        GpioPath::AhbCtlAfsel => configure_f1x0(bus, port_base, n, &cfg),
    }
}

fn configure_f10x<B: Bus>(bus: &mut B, port_base: u32, n: u32, cfg: &PinConfig)
    requires
        n < 16,
    ensures
        reg::ran(*old(bus), *final(bus), seq![nibble_step(port_base, n, af_nibble(*cfg))]),
{
    let nibble: u32 = if !cfg.output {
        0x4
    } else if cfg.open_drain {
        0xF
    } else {
        0xB
    };
    set_nibble(bus, port_base, n, nibble);
    proof {
        reg::ran_one(*old(bus), *bus, nibble_step(port_base, n, nibble));
    }
}

fn configure_f1x0<B: Bus>(bus: &mut B, port_base: u32, n: u32, cfg: &PinConfig)
    requires
        n < 16,
    ensures
        reg::ran(*old(bus), *final(bus), f1x0_af_script(port_base, n, *cfg)),
{
    broadcast use reg::ran_then;

    proof {
        reg::ran_nothing(*bus);
    }
    set_pair(bus, port_base, F1X0_CTL, n, F1X0_MODE_AF);
    let pupd: u32 = if cfg.pull_up {
        F1X0_PUPD_PULLUP
    } else {
        F1X0_PUPD_NONE
    };
    set_pair(bus, port_base, F1X0_PUD, n, pupd);
    set_afsel(bus, port_base, n, cfg.af);
    if cfg.output {
        set_omode(bus, port_base, n, cfg.open_drain);
        set_pair(bus, port_base, F1X0_OSPD, n, F1X0_OSPEED_50MHZ);
    }
}

// --- inputs -----------------------------------------------------------------------------------

/// The pull of an input pin.
#[derive(Debug, Clone, Copy, PartialEq, Eq, Structural)]
pub enum InputPull {
    Floating,
    PullUp,
    PullDown,
}

/// Making a pin an input. The F10x takes the direction of the pull from the output register,
/// which is set through the bit-operate register.
pub open spec fn input_script(port_base: u32, path: GpioPath, pin: u8, pull: InputPull) -> Seq<
    Step,
> {
    let n = pin_number(pin);
    match path {
        GpioPath::ApbCrlCrh => match pull {
            InputPull::Floating => seq![nibble_step(port_base, n, 0x4)],
            InputPull::PullUp => seq![nibble_step(port_base, n, 0x8)].push(
                Step::Store { addr: reg::at(port_base, F10X_BOP), value: 1u32 << n },
            ),
            InputPull::PullDown => seq![nibble_step(port_base, n, 0x8)].push(
                Step::Store { addr: reg::at(port_base, F10X_BOP), value: 1u32 << ((n + 16) as u32) },
            ),
        },
        GpioPath::AhbCtlAfsel => seq![pair_step(port_base, F1X0_CTL, n, F1X0_MODE_INPUT)].push(
            pair_step(
                port_base,
                F1X0_PUD,
                n,
                match pull {
                    InputPull::Floating => F1X0_PUPD_NONE,
                    InputPull::PullUp => F1X0_PUPD_PULLUP,
                    InputPull::PullDown => F1X0_PUPD_PULLDOWN,
                },
            ),
        ),
    }
}

/// Make a pin an input.
pub fn configure_input<B: Bus>(
    bus: &mut B,
    port_base: u32,
    path: GpioPath,
    pin: u8,
    pull: InputPull,
)
    ensures
        reg::ran(*old(bus), *final(bus), input_script(port_base, path, pin, pull)),
{
    let n: u32 = number(pin);
    match path {
        GpioPath::ApbCrlCrh => configure_input_f10x(bus, port_base, pin, n, pull),
        GpioPath::AhbCtlAfsel => configure_input_f1x0(bus, port_base, pin, n, pull),
    }
}

fn configure_input_f10x<B: Bus>(bus: &mut B, port_base: u32, pin: u8, n: u32, pull: InputPull)
    requires
        n < 16,
        n == pin_number(pin),
    ensures
        reg::ran(
            *old(bus),
            *final(bus),
            input_script(port_base, GpioPath::ApbCrlCrh, pin, pull),
        ),
{
    broadcast use reg::ran_then;

    proof {
        reg::ran_nothing(*bus);
    }
    let nibble: u32 = match pull {
        InputPull::Floating => 0x4,
        InputPull::PullUp | InputPull::PullDown => 0x8,
    };
    set_nibble(bus, port_base, n, nibble);
    match pull {
        InputPull::PullUp => Reg32::new(port_base, F10X_BOP).write(bus, 1u32 << n),
        InputPull::PullDown => Reg32::new(port_base, F10X_BOP).write(bus, 1u32 << (n + 16)),
        InputPull::Floating => {},
    }
}

fn configure_input_f1x0<B: Bus>(bus: &mut B, port_base: u32, pin: u8, n: u32, pull: InputPull)
    requires
        n < 16,
        n == pin_number(pin),
    ensures
        reg::ran(
            *old(bus),
            *final(bus),
            input_script(port_base, GpioPath::AhbCtlAfsel, pin, pull),
        ),
{
    broadcast use reg::ran_then;

    proof {
        reg::ran_nothing(*bus);
    }
    set_pair(bus, port_base, F1X0_CTL, n, F1X0_MODE_INPUT);
    let pupd: u32 = match pull {
        InputPull::Floating => F1X0_PUPD_NONE,
        InputPull::PullUp => F1X0_PUPD_PULLUP,
        InputPull::PullDown => F1X0_PUPD_PULLDOWN,
    };
    set_pair(bus, port_base, F1X0_PUD, n, pupd);
}

/// Offset of the input status register.
pub open spec fn istat(path: GpioPath) -> u32 {
    match path {
        GpioPath::ApbCrlCrh => F10X_ISTAT,
        GpioPath::AhbCtlAfsel => F1X0_ISTAT,
    }
}

/// Offset of the output data register.
pub open spec fn octl(path: GpioPath) -> u32 {
    match path {
        GpioPath::ApbCrlCrh => F10X_OCTL,
        GpioPath::AhbCtlAfsel => F1X0_OCTL,
    }
}

/// One load of the register at `offset`, and the bit of `pin` in what it returned.
pub open spec fn sampled<B: Bus>(
    b0: B,
    b1: B,
    port_base: u32,
    offset: u32,
    pin: u8,
    r: bool,
) -> bool {
    let v = reg::last_load(b1.log());
    &&& reg::ran(b0, b1, seq![Step::Load { addr: reg::at(port_base, offset), value: v }])
    &&& r == (v & (1u32 << pin_number(pin)) != 0)
}

/// The level at a pin.
pub fn read_pin<B: Bus>(bus: &mut B, port_base: u32, path: GpioPath, pin: u8) -> (r: bool)
    ensures
        sampled(*old(bus), *final(bus), port_base, istat(path), pin, r),
{
    let n: u32 = number(pin);
    let offset: u32 = match path {
        GpioPath::ApbCrlCrh => F10X_ISTAT,
        GpioPath::AhbCtlAfsel => F1X0_ISTAT,
    };
    let v: u32 = Reg32::new(port_base, offset).read(bus);
    proof {
        reg::ran_one(*old(bus), *bus, Step::Load { addr: reg::at(port_base, offset), value: v });
    }
    v & (1u32 << n) != 0
}

// --- outputs ----------------------------------------------------------------------------------

/// Making a pin a 50 MHz push-pull output.
pub open spec fn output_script(port_base: u32, path: GpioPath, pin: u8) -> Seq<Step> {
    let n = pin_number(pin);
    match path {
        GpioPath::ApbCrlCrh => seq![nibble_step(port_base, n, 0x3)],
        GpioPath::AhbCtlAfsel => seq![pair_step(port_base, F1X0_CTL, n, F1X0_MODE_OUTPUT)].push(
            omode_step(port_base, n, false),
        ).push(pair_step(port_base, F1X0_OSPD, n, F1X0_OSPEED_50MHZ)),
    }
}

/// Make a pin a push-pull output.
pub fn configure_output<B: Bus>(bus: &mut B, port_base: u32, path: GpioPath, pin: u8)
    ensures
        reg::ran(*old(bus), *final(bus), output_script(port_base, path, pin)),
{
    let n: u32 = number(pin);
    match path {
        GpioPath::ApbCrlCrh => configure_output_f10x(bus, port_base, n),
        GpioPath::AhbCtlAfsel => configure_output_f1x0(bus, port_base, n),
    }
}

fn configure_output_f10x<B: Bus>(bus: &mut B, port_base: u32, n: u32)
    requires
        n < 16,
    ensures
        reg::ran(*old(bus), *final(bus), seq![nibble_step(port_base, n, 0x3)]),
{
    set_nibble(bus, port_base, n, 0x3);
    proof {
        reg::ran_one(*old(bus), *bus, nibble_step(port_base, n, 0x3));
    }
}

fn configure_output_f1x0<B: Bus>(bus: &mut B, port_base: u32, n: u32)
    requires
        n < 16,
    ensures
        reg::ran(
            *old(bus),
            *final(bus),
            seq![pair_step(port_base, F1X0_CTL, n, F1X0_MODE_OUTPUT)].push(
                omode_step(port_base, n, false),
            ).push(pair_step(port_base, F1X0_OSPD, n, F1X0_OSPEED_50MHZ)),
        ),
{
    broadcast use reg::ran_then;

    proof {
        reg::ran_nothing(*bus);
    }
    set_pair(bus, port_base, F1X0_CTL, n, F1X0_MODE_OUTPUT);
    set_omode(bus, port_base, n, false);
    set_pair(bus, port_base, F1X0_OSPD, n, F1X0_OSPEED_50MHZ);
}

/// Driving a pin: one store to the bit-operate register, the set half for high and the reset half
/// for low. No other pin is touched.
pub open spec fn drive_step(port_base: u32, path: GpioPath, pin: u8, high: bool) -> Step {
    let n = pin_number(pin);
    Step::Store {
        addr: reg::at(
            port_base,
            match path {
                GpioPath::ApbCrlCrh => F10X_BOP,
                GpioPath::AhbCtlAfsel => F1X0_BOP,
            },
        ),
        value: if high {
            1u32 << n
        } else {
            1u32 << ((n + 16) as u32)
        },
    }
}

/// Drive a pin high or low.
pub fn set_pin<B: Bus>(bus: &mut B, port_base: u32, path: GpioPath, pin: u8, high: bool)
    ensures
        reg::ran(*old(bus), *final(bus), seq![drive_step(port_base, path, pin, high)]),
{
    let n: u32 = number(pin);
    let bop: u32 = match path {
        GpioPath::ApbCrlCrh => F10X_BOP,
        GpioPath::AhbCtlAfsel => F1X0_BOP,
    };
    let value: u32 = if high {
        1u32 << n
    } else {
        1u32 << (n + 16)
    };
    Reg32::new(port_base, bop).write(bus, value);
    proof {
        reg::ran_one(*old(bus), *bus, drive_step(port_base, path, pin, high));
    }
}

/// A push-pull output pin that remembers how it was last driven.
#[derive(Debug, Clone, Copy, PartialEq, Eq, Structural)]
pub struct GpioOutput {
    port_base: u32,
    path: GpioPath,
    pin: u8,
    state: bool,
}

impl GpioOutput {
    pub closed spec fn port(self) -> u32 {
        self.port_base
    }

    pub closed spec fn model(self) -> GpioPath {
        self.path
    }

    pub closed spec fn byte(self) -> u8 {
        self.pin
    }

    /// Whether the pin was last driven high.
    pub closed spec fn driven_high(self) -> bool {
        self.state
    }

    /// The same pin, whatever its state.
    pub open spec fn same_pin(self, other: Self) -> bool {
        &&& self.port() == other.port()
        &&& self.model() == other.model()
        &&& self.byte() == other.byte()
    }

    /// A handle on a pin that counts as low.
    pub fn new(port_base: u32, path: GpioPath, pin: u8) -> (r: Self)
        ensures
            r.port() == port_base,
            r.model() == path,
            r.byte() == pin,
            !r.driven_high(),
    {
        Self { port_base, path, pin, state: false }
    }

    /// The pin's byte.
    pub fn pin(&self) -> (r: u8)
        ensures
            r == self.byte(),
    {
        self.pin
    }

    /// Drive the pin high.
    pub fn set_high<B: Bus>(&mut self, bus: &mut B)
        ensures
            final(self).same_pin(*old(self)),
            final(self).driven_high(),
            reg::ran(
                *old(bus),
                *final(bus),
                seq![drive_step(old(self).port(), old(self).model(), old(self).byte(), true)],
            ),
    {
        set_pin(bus, self.port_base, self.path, self.pin, true);
        self.state = true;
    }

    /// Drive the pin low.
    pub fn set_low<B: Bus>(&mut self, bus: &mut B)
        ensures
            final(self).same_pin(*old(self)),
            !final(self).driven_high(),
            reg::ran(
                *old(bus),
                *final(bus),
                seq![drive_step(old(self).port(), old(self).model(), old(self).byte(), false)],
            ),
    {
        set_pin(bus, self.port_base, self.path, self.pin, false);
        self.state = false;
    }

    /// Whether the pin was last driven high.
    pub fn is_set_high(&self) -> (r: bool)
        ensures
            r == self.driven_high(),
    {
        self.state
    }

    /// Whether the pin was last driven low.
    pub fn is_set_low(&self) -> (r: bool)
        ensures
            r == !self.driven_high(),
    {
        !self.state
    }
}

// --- pins whose mode is in their type ---------------------------------------------------------

/// No pull.
#[derive(Debug, Clone, Copy, PartialEq, Eq, Structural)]
pub struct Floating;

/// Pulled up.
#[derive(Debug, Clone, Copy, PartialEq, Eq, Structural)]
pub struct PullUp;

/// Pulled down.
#[derive(Debug, Clone, Copy, PartialEq, Eq, Structural)]
pub struct PullDown;

/// Push-pull.
#[derive(Debug, Clone, Copy, PartialEq, Eq, Structural)]
pub struct PushPull;

/// An input with a pull.
#[derive(Debug, PartialEq, Eq)]
pub struct Input<PULL> {
    _pull: PhantomData<PULL>,
}

impl<PULL> Clone for Input<PULL> {
    fn clone(&self) -> (r: Self)
        ensures
            r == *self,
    {
        Input { _pull: PhantomData }
    }
}

impl<PULL> Copy for Input<PULL> {

}

/// An output of a type.
#[derive(Debug, PartialEq, Eq)]
pub struct Output<OTYPE> {
    _otype: PhantomData<OTYPE>,
}

impl<OTYPE> Clone for Output<OTYPE> {
    fn clone(&self) -> (r: Self)
        ensures
            r == *self,
    {
        Output { _otype: PhantomData }
    }
}

impl<OTYPE> Copy for Output<OTYPE> {

}

/// A pin in a mode.
#[derive(Debug, PartialEq, Eq)]
pub struct Pin<MODE> {
    port_base: u32,
    path: GpioPath,
    pin: u8,
    _mode: PhantomData<MODE>,
}

impl<MODE> Clone for Pin<MODE> {
    fn clone(&self) -> (r: Self)
        ensures
            r == *self,
    {
        Pin { port_base: self.port_base, path: self.path, pin: self.pin, _mode: PhantomData }
    }
}

impl<MODE> Copy for Pin<MODE> {

}

impl<MODE> Pin<MODE> {
    pub closed spec fn port(self) -> u32 {
        self.port_base
    }

    pub closed spec fn model(self) -> GpioPath {
        self.path
    }

    pub closed spec fn byte(self) -> u8 {
        self.pin
    }

    /// This is the pin with byte `pin` of the port at `port_base`.
    pub open spec fn is_at(self, port_base: u32, path: GpioPath, pin: u8) -> bool {
        &&& self.port() == port_base
        &&& self.model() == path
        &&& self.byte() == pin
    }

    /// The pin with byte `pin` of the port at `port_base`. No register is touched: the mode is
    /// taken on trust.
    pub fn new(port_base: u32, path: GpioPath, pin: u8) -> (r: Self)
        ensures
            r.is_at(port_base, path, pin),
    {
        Self { port_base, path, pin, _mode: PhantomData }
    }

    /// The pin's byte.
    pub fn pin(&self) -> (r: u8)
        ensures
            r == self.byte(),
    {
        self.pin
    }

    /// The base of the pin's port.
    pub fn port_base(&self) -> (r: u32)
        ensures
            r == self.port(),
    {
        self.port_base
    }

    /// The register model of the pin's port.
    pub fn path(&self) -> (r: GpioPath)
        ensures
            r == self.model(),
    {
        self.path
    }

    /// Make the pin a push-pull output.
    pub fn into_push_pull_output<B: Bus>(self, bus: &mut B) -> (r: Pin<Output<PushPull>>)
        ensures
            r.is_at(self.port(), self.model(), self.byte()),
            reg::ran(
                *old(bus),
                *final(bus),
                output_script(self.port(), self.model(), self.byte()),
            ),
    {
        configure_output(bus, self.port_base, self.path, self.pin);
        Pin::new(self.port_base, self.path, self.pin)
    }

    /// Make the pin a floating input.
    pub fn into_floating_input<B: Bus>(self, bus: &mut B) -> (r: Pin<Input<Floating>>)
        ensures
            r.is_at(self.port(), self.model(), self.byte()),
            reg::ran(
                *old(bus),
                *final(bus),
                input_script(self.port(), self.model(), self.byte(), InputPull::Floating),
            ),
    {
        configure_input(bus, self.port_base, self.path, self.pin, InputPull::Floating);
        Pin::new(self.port_base, self.path, self.pin)
    }

    /// Make the pin an input with a pull-up.
    pub fn into_pull_up_input<B: Bus>(self, bus: &mut B) -> (r: Pin<Input<PullUp>>)
        ensures
            r.is_at(self.port(), self.model(), self.byte()),
            reg::ran(
                *old(bus),
                *final(bus),
                input_script(self.port(), self.model(), self.byte(), InputPull::PullUp),
            ),
    {
        configure_input(bus, self.port_base, self.path, self.pin, InputPull::PullUp);
        Pin::new(self.port_base, self.path, self.pin)
    }

    /// Make the pin an input with a pull-down.
    pub fn into_pull_down_input<B: Bus>(self, bus: &mut B) -> (r: Pin<Input<PullDown>>)
        ensures
            r.is_at(self.port(), self.model(), self.byte()),
            reg::ran(
                *old(bus),
                *final(bus),
                input_script(self.port(), self.model(), self.byte(), InputPull::PullDown),
            ),
    {
        configure_input(bus, self.port_base, self.path, self.pin, InputPull::PullDown);
        Pin::new(self.port_base, self.path, self.pin)
    }
}

impl Pin<Output<PushPull>> {
    /// Drive the pin high.
    pub fn set_high<B: Bus>(&self, bus: &mut B)
        ensures
            reg::ran(
                *old(bus),
                *final(bus),
                seq![drive_step(self.port(), self.model(), self.byte(), true)],
            ),
    {
        self.as_output().set_high(bus);
    }

    /// Drive the pin low.
    pub fn set_low<B: Bus>(&self, bus: &mut B)
        ensures
            reg::ran(
                *old(bus),
                *final(bus),
                seq![drive_step(self.port(), self.model(), self.byte(), false)],
            ),
    {
        self.as_output().set_low(bus);
    }

    fn as_output(&self) -> (r: GpioOutput)
        ensures
            r.port() == self.port(),
            r.model() == self.model(),
            r.byte() == self.byte(),
    {
        GpioOutput::new(self.port_base, self.path, self.pin)
    }

    /// Whether the output data register drives the pin high.
    pub fn is_set_high<B: Bus>(&self, bus: &mut B) -> (r: bool)
        ensures
            sampled(*old(bus), *final(bus), self.port(), octl(self.model()), self.byte(), r),
    {
        let n: u32 = number(self.pin);
        let offset: u32 = match self.path {
            GpioPath::ApbCrlCrh => F10X_OCTL,
            GpioPath::AhbCtlAfsel => F1X0_OCTL,
        };
        let v: u32 = Reg32::new(self.port_base, offset).read(bus);
        proof {
            reg::ran_one(
                *old(bus),
                *bus,
                Step::Load { addr: reg::at(self.port_base, offset), value: v },
            );
        }
        v & (1u32 << n) != 0
    }

    /// Whether the output data register drives the pin low.
    pub fn is_set_low<B: Bus>(&self, bus: &mut B) -> (r: bool)
        ensures
            sampled(*old(bus), *final(bus), self.port(), octl(self.model()), self.byte(), !r),
    {
        !self.is_set_high(bus)
    }
}

impl<PULL> Pin<Input<PULL>> {
    /// Whether the pin reads high.
    pub fn is_high<B: Bus>(&self, bus: &mut B) -> (r: bool)
        ensures
            sampled(*old(bus), *final(bus), self.port(), istat(self.model()), self.byte(), r),
    {
        read_pin(bus, self.port_base, self.path, self.pin)
    }

    /// Whether the pin reads low.
    pub fn is_low<B: Bus>(&self, bus: &mut B) -> (r: bool)
        ensures
            sampled(*old(bus), *final(bus), self.port(), istat(self.model()), self.byte(), !r),
    {
        !read_pin(bus, self.port_base, self.path, self.pin)
    }
}

/// The pins of a port.
pub trait PortPins: Sized {
    /// These are the pins of the port at `base`.
    spec fn of_port(&self, base: u32, path: GpioPath) -> bool;

    /// The pins of the port at `base`, each in its reset mode.
    fn from_port(base: u32, path: GpioPath) -> (r: Self)
        ensures
            r.of_port(base, path),
    ;
}

/// A clocked GPIO port.
#[derive(Debug, PartialEq, Eq)]
pub struct GpioPort<P: PortPins> {
    base: u32,
    path: GpioPath,
    _pins: PhantomData<P>,
}

impl<P: PortPins> Clone for GpioPort<P> {
    fn clone(&self) -> (r: Self)
        ensures
            r == *self,
    {
        GpioPort { base: self.base, path: self.path, _pins: PhantomData }
    }
}

impl<P: PortPins> Copy for GpioPort<P> {

}

impl<P: PortPins> GpioPort<P> {
    pub closed spec fn at(self) -> u32 {
        self.base
    }

    pub closed spec fn model(self) -> GpioPath {
        self.path
    }

    /// The port at `base`.
    pub fn new(base: u32, path: GpioPath) -> (r: Self)
        ensures
            r.at() == base,
            r.model() == path,
    {
        Self { base, path, _pins: PhantomData }
    }

    /// The base of the port.
    pub fn base(&self) -> (r: u32)
        ensures
            r == self.at(),
    {
        self.base
    }

    /// The pins of the port.
    pub fn split(self) -> (r: P)
        ensures
            r.of_port(self.at(), self.model()),
    {
        P::from_port(self.base, self.path)
    }
}

} // verus!
