//! Clocks: the per-peripheral clock enables and the clock tree.
//!
//! The two families share the tree's register layout and differ in the enable registers: GPIO
//! ports are on `APB2EN` on the F10x and on `AHBEN` on the F1x0, and the F1x0 has no USART2, no
//! port E and no second advanced timer.

use vstd::prelude::*;

use crate::addr::{self, PeriphLabel};
use crate::bits;
use crate::chip::Chip;
use crate::descriptor::ClockPath;
use crate::error::{ClockError, DescriptorError};
use crate::reg::{self, Access, Bus, Reg32, Step, Want};

verus! {

/// What the PLL runs from.
#[derive(Debug, Clone, Copy, PartialEq, Eq, Structural)]
pub enum ClockSource {
    /// The internal 8 MHz oscillator, halved before the PLL.
    Irc8m,
    /// The external crystal.
    Hxtal,
}

/// A clock tree, as the application asks for it. Prescalers are divisors, not register codes.
#[derive(Debug, Clone, Copy, PartialEq, Eq, Structural)]
pub struct ClockConfig {
    /// The system clock in Hz.
    pub sysclk_hz: u32,
    /// Flash wait states for that clock.
    pub wait_states: u8,
    /// What the PLL runs from.
    pub source: ClockSource,
    /// The PLL multiplier.
    pub pll_mul: u8,
    /// AHB is the system clock over this.
    pub ahb_psc: u16,
    /// APB1 is AHB over this.
    pub apb1_psc: u16,
    /// APB2 is AHB over this.
    pub apb2_psc: u16,
}

/// The AHB divisors the prescaler field has a code for; there is no /32.
pub open spec fn legal_ahb_psc(div: u16) -> bool {
    div == 1 || div == 2 || div == 4 || div == 8 || div == 16 || div == 64 || div == 128 || div
        == 256 || div == 512
}

/// The APB divisors the prescaler fields have a code for.
pub open spec fn legal_apb_psc(div: u16) -> bool {
    div == 1 || div == 2 || div == 4 || div == 8 || div == 16
}

/// The highest system clock of a family in Hz.
pub open spec fn ceiling_hz(path: ClockPath) -> u32 {
    match path {
        ClockPath::F10xRcc => 108_000_000,
        ClockPath::F1x0Rcu => 72_000_000,
    }
}

/// The fewest flash wait states a family needs at a system clock. The F10x reads flash without
/// waiting at any clock; the F1x0 does so up to 48 MHz.
pub open spec fn least_wait_states(path: ClockPath, sysclk_hz: u32) -> u8 {
    match path {
        ClockPath::F10xRcc => 0,
        ClockPath::F1x0Rcu => if sysclk_hz <= 48_000_000 {
            0
        } else {
            1
        },
    }
}

impl ClockConfig {
    /// The 72 MHz reference tree: IRC8M / 2 * 18, APB1 at half speed, two wait states.
    pub fn reference_72m_irc8m() -> (r: ClockConfig)
        ensures
            r == (ClockConfig {
                sysclk_hz: 72_000_000,
                wait_states: 2,
                source: ClockSource::Irc8m,
                pll_mul: 18,
                ahb_psc: 1,
                apb1_psc: 2,
                apb2_psc: 1,
            }),
    {
        ClockConfig {
            sysclk_hz: 72_000_000,
            wait_states: 2,
            source: ClockSource::Irc8m,
            pll_mul: 18,
            ahb_psc: 1,
            apb1_psc: 2,
            apb2_psc: 1,
        }
    }

    /// The verdict on this tree for a family: the PLL is judged first, the prescalers next, the
    /// clock ceiling and the wait states last.
    pub open spec fn verdict(self, path: ClockPath) -> Result<(), ClockError> {
        if !(2 <= self.pll_mul <= 32) {
            Err(ClockError::InvalidPll)
        } else if !legal_ahb_psc(self.ahb_psc) || !legal_apb_psc(self.apb1_psc) || !legal_apb_psc(
            self.apb2_psc,
        ) {
            Err(ClockError::InvalidPrescaler)
        } else if self.sysclk_hz > ceiling_hz(path) || self.wait_states > 7 || self.wait_states
            < least_wait_states(path, self.sysclk_hz) {
            Err(ClockError::InvalidWaitStates)
        } else {
            Ok(())
        }
    }

    /// Judge this tree for a family.
    pub fn validate_for(&self, path: ClockPath) -> (r: Result<(), ClockError>)
        ensures
            r == self.verdict(path),
    {
        if self.pll_mul < 2 || self.pll_mul > 32 {
            return Err(ClockError::InvalidPll);
        }
        if !is_legal_ahb_psc(self.ahb_psc) {
            return Err(ClockError::InvalidPrescaler);
        }
        if !is_legal_apb_psc(self.apb1_psc) {
            return Err(ClockError::InvalidPrescaler);
        }
        if !is_legal_apb_psc(self.apb2_psc) {
            return Err(ClockError::InvalidPrescaler);
        }
        let (ceiling, min_ws): (u32, u8) = match path {
            ClockPath::F10xRcc => (108_000_000, 0),
            ClockPath::F1x0Rcu => (72_000_000, if self.sysclk_hz <= 48_000_000 {
                0
            } else {
                1
            }),
        };
        if self.sysclk_hz > ceiling {
            return Err(ClockError::InvalidWaitStates);
        }
        if self.wait_states > 7 {
            return Err(ClockError::InvalidWaitStates);
        }
        if self.wait_states < min_ws {
            return Err(ClockError::InvalidWaitStates);
        }
        Ok(())
    }
}

fn is_legal_ahb_psc(div: u16) -> (r: bool)
    ensures
        r == legal_ahb_psc(div),
{
    div == 1 || div == 2 || div == 4 || div == 8 || div == 16 || div == 64 || div == 128 || div
        == 256 || div == 512
}

fn is_legal_apb_psc(div: u16) -> (r: bool)
    ensures
        r == legal_apb_psc(div),
{
    div == 1 || div == 2 || div == 4 || div == 8 || div == 16
}

// --- peripheral clock enables -----------------------------------------------------------------

/// Offset of the AHB enable register.
pub const AHBEN: u32 = 0x14;

/// Offset of the APB2 enable register.
pub const APB2EN: u32 = 0x18;

/// Offset of the APB1 enable register.
pub const APB1EN: u32 = 0x1C;

/// A bit of an enable register.
#[derive(Debug, Clone, Copy, PartialEq, Eq, Structural)]
pub struct EnableBit {
    /// Offset of the register.
    pub reg: u32,
    /// The bit.
    pub bit: u8,
}

impl EnableBit {
    /// Setting this bit in the clock unit at `rcu_base`, leaving the others.
    pub open spec fn step(self, rcu_base: u32) -> Step {
        Step::Modify {
            addr: reg::at(rcu_base, self.reg),
            mask: 1u32 << self.bit,
            bits: 1u32 << self.bit,
        }
    }

    fn apply<B: Bus>(&self, bus: &mut B, rcu_base: u32)
        requires
            self.bit < 32,
        ensures
            reg::did(*old(bus), *final(bus), self.step(rcu_base)),
    {
        let mask: u32 = 1u32 << self.bit;
        Reg32::new(rcu_base, self.reg).modify(bus, mask, mask);
    }
}

/// What enabling a clock comes to: the bit is set and nothing else is touched, or the label is
/// refused and the bus is left alone.
pub open spec fn enabled<B: Bus>(
    b0: B,
    b1: B,
    rcu_base: u32,
    bit: Result<EnableBit, DescriptorError>,
    r: Result<(), DescriptorError>,
) -> bool {
    match bit {
        Ok(e) => r == Ok::<(), DescriptorError>(()) && reg::ran(b0, b1, seq![e.step(rcu_base)]),
        Err(e) => r == Err::<(), DescriptorError>(e) && b1 == b0,
    }
}

/// The enable bit of a USART.
pub open spec fn usart_bit(path: ClockPath, usart: PeriphLabel) -> Result<
    EnableBit,
    DescriptorError,
> {
    match (path, usart) {
        (_, PeriphLabel::Usart0) => Ok(EnableBit { reg: APB2EN, bit: 14 }),
        (_, PeriphLabel::Usart1) => Ok(EnableBit { reg: APB1EN, bit: 17 }),
        (ClockPath::F10xRcc, PeriphLabel::Usart2) => Ok(EnableBit { reg: APB1EN, bit: 18 }),
        (ClockPath::F1x0Rcu, PeriphLabel::Usart2) => Err(DescriptorError::SelectorAddrMismatch),
        _ => Err(DescriptorError::UnknownSelector),
    }
}

fn usart_enable_bit(path: ClockPath, usart: PeriphLabel) -> (r: Result<EnableBit, DescriptorError>)
    ensures
        r == usart_bit(path, usart),
        r is Ok ==> r->Ok_0.bit < 32,
{
    match (path, usart) {
        (_, PeriphLabel::Usart0) => Ok(EnableBit { reg: APB2EN, bit: 14 }),
        (_, PeriphLabel::Usart1) => Ok(EnableBit { reg: APB1EN, bit: 17 }),
        (ClockPath::F10xRcc, PeriphLabel::Usart2) => Ok(EnableBit { reg: APB1EN, bit: 18 }),
        (ClockPath::F1x0Rcu, PeriphLabel::Usart2) => Err(DescriptorError::SelectorAddrMismatch),
        _ => Err(DescriptorError::UnknownSelector),
    }
}

/// Enable the clock of a USART.
pub fn enable_usart<B: Bus>(
    bus: &mut B,
    rcu_base: u32,
    path: ClockPath,
    usart_label: PeriphLabel,
) -> (r: Result<(), DescriptorError>)
    ensures
        enabled(*old(bus), *final(bus), rcu_base, usart_bit(path, usart_label), r),
{
    match usart_enable_bit(path, usart_label) {
        Ok(bit) => {
            bit.apply(bus, rcu_base);
            proof {
                reg::ran_one(*old(bus), *bus, bit.step(rcu_base));
            }
            Ok(())
        },
        Err(e) => Err(e),
    }
}

/// The enable bit of a GPIO port.
pub open spec fn gpio_bit(path: ClockPath, port: PeriphLabel) -> Result<EnableBit, DescriptorError> {
    match (path, port) {
        (ClockPath::F10xRcc, PeriphLabel::Gpioa) => Ok(EnableBit { reg: APB2EN, bit: 2 }),
        (ClockPath::F10xRcc, PeriphLabel::Gpiob) => Ok(EnableBit { reg: APB2EN, bit: 3 }),
        (ClockPath::F10xRcc, PeriphLabel::Gpioc) => Ok(EnableBit { reg: APB2EN, bit: 4 }),
        (ClockPath::F10xRcc, PeriphLabel::Gpiod) => Ok(EnableBit { reg: APB2EN, bit: 5 }),
        (ClockPath::F10xRcc, PeriphLabel::Gpioe) => Ok(EnableBit { reg: APB2EN, bit: 6 }),
        (ClockPath::F10xRcc, PeriphLabel::Gpiof) => Ok(EnableBit { reg: APB2EN, bit: 7 }),
        (ClockPath::F1x0Rcu, PeriphLabel::Gpioa) => Ok(EnableBit { reg: AHBEN, bit: 17 }),
        (ClockPath::F1x0Rcu, PeriphLabel::Gpiob) => Ok(EnableBit { reg: AHBEN, bit: 18 }),
        (ClockPath::F1x0Rcu, PeriphLabel::Gpioc) => Ok(EnableBit { reg: AHBEN, bit: 19 }),
        (ClockPath::F1x0Rcu, PeriphLabel::Gpiod) => Ok(EnableBit { reg: AHBEN, bit: 20 }),
        (ClockPath::F1x0Rcu, PeriphLabel::Gpioe) => Err(DescriptorError::SelectorAddrMismatch),
        (ClockPath::F1x0Rcu, PeriphLabel::Gpiof) => Ok(EnableBit { reg: AHBEN, bit: 22 }),
        _ => Err(DescriptorError::UnknownSelector),
    }
}

fn gpio_enable_bit(path: ClockPath, port: PeriphLabel) -> (r: Result<EnableBit, DescriptorError>)
    ensures
        r == gpio_bit(path, port),
        r is Ok ==> r->Ok_0.bit < 32,
{
    match (path, port) {
        (ClockPath::F10xRcc, PeriphLabel::Gpioa) => Ok(EnableBit { reg: APB2EN, bit: 2 }),
        (ClockPath::F10xRcc, PeriphLabel::Gpiob) => Ok(EnableBit { reg: APB2EN, bit: 3 }),
        (ClockPath::F10xRcc, PeriphLabel::Gpioc) => Ok(EnableBit { reg: APB2EN, bit: 4 }),
        (ClockPath::F10xRcc, PeriphLabel::Gpiod) => Ok(EnableBit { reg: APB2EN, bit: 5 }),
        (ClockPath::F10xRcc, PeriphLabel::Gpioe) => Ok(EnableBit { reg: APB2EN, bit: 6 }),
        (ClockPath::F10xRcc, PeriphLabel::Gpiof) => Ok(EnableBit { reg: APB2EN, bit: 7 }),
        (ClockPath::F1x0Rcu, PeriphLabel::Gpioa) => Ok(EnableBit { reg: AHBEN, bit: 17 }),
        (ClockPath::F1x0Rcu, PeriphLabel::Gpiob) => Ok(EnableBit { reg: AHBEN, bit: 18 }),
        (ClockPath::F1x0Rcu, PeriphLabel::Gpioc) => Ok(EnableBit { reg: AHBEN, bit: 19 }),
        (ClockPath::F1x0Rcu, PeriphLabel::Gpiod) => Ok(EnableBit { reg: AHBEN, bit: 20 }),
        (ClockPath::F1x0Rcu, PeriphLabel::Gpioe) => Err(DescriptorError::SelectorAddrMismatch),
        (ClockPath::F1x0Rcu, PeriphLabel::Gpiof) => Ok(EnableBit { reg: AHBEN, bit: 22 }),
        _ => Err(DescriptorError::UnknownSelector),
    }
}

/// Enable the clock of a GPIO port.
pub fn enable_gpio_port<B: Bus>(
    bus: &mut B,
    rcu_base: u32,
    path: ClockPath,
    port: PeriphLabel,
) -> (r: Result<(), DescriptorError>)
    ensures
        enabled(*old(bus), *final(bus), rcu_base, gpio_bit(path, port), r),
{
    match gpio_enable_bit(path, port) {
        Ok(bit) => {
            bit.apply(bus, rcu_base);
            proof {
                reg::ran_one(*old(bus), *bus, bit.step(rcu_base));
            }
            Ok(())
        },
        Err(e) => Err(e),
    }
}

/// The enable bit of an I2C block; both families agree.
pub open spec fn i2c_bit(i2c: PeriphLabel) -> Result<EnableBit, DescriptorError> {
    match i2c {
        PeriphLabel::I2c0 => Ok(EnableBit { reg: APB1EN, bit: 21 }),
        PeriphLabel::I2c1 => Ok(EnableBit { reg: APB1EN, bit: 22 }),
        _ => Err(DescriptorError::UnknownSelector),
    }
}

fn i2c_enable_bit(i2c: PeriphLabel) -> (r: Result<EnableBit, DescriptorError>)
    ensures
        r == i2c_bit(i2c),
        r is Ok ==> r->Ok_0.bit < 32,
{
    match i2c {
        PeriphLabel::I2c0 => Ok(EnableBit { reg: APB1EN, bit: 21 }),
        PeriphLabel::I2c1 => Ok(EnableBit { reg: APB1EN, bit: 22 }),
        _ => Err(DescriptorError::UnknownSelector),
    }
}

/// Enable the clock of an I2C block.
pub fn enable_i2c<B: Bus>(
    bus: &mut B,
    rcu_base: u32,
    path: ClockPath,
    i2c_label: PeriphLabel,
) -> (r: Result<(), DescriptorError>)
    ensures
        enabled(*old(bus), *final(bus), rcu_base, i2c_bit(i2c_label), r),
{
    let _ = path;
    match i2c_enable_bit(i2c_label) {
        Ok(bit) => {
            bit.apply(bus, rcu_base);
            proof {
                reg::ran_one(*old(bus), *bus, bit.step(rcu_base));
            }
            Ok(())
        },
        Err(e) => Err(e),
    }
}

/// The enable bit of a SPI block; both families agree.
pub open spec fn spi_bit(spi: PeriphLabel) -> Result<EnableBit, DescriptorError> {
    match spi {
        PeriphLabel::Spi0 => Ok(EnableBit { reg: APB2EN, bit: 12 }),
        PeriphLabel::Spi1 => Ok(EnableBit { reg: APB1EN, bit: 14 }),
        _ => Err(DescriptorError::UnknownSelector),
    }
}

fn spi_enable_bit(spi: PeriphLabel) -> (r: Result<EnableBit, DescriptorError>)
    ensures
        r == spi_bit(spi),
        r is Ok ==> r->Ok_0.bit < 32,
{
    match spi {
        PeriphLabel::Spi0 => Ok(EnableBit { reg: APB2EN, bit: 12 }),
        PeriphLabel::Spi1 => Ok(EnableBit { reg: APB1EN, bit: 14 }),
        _ => Err(DescriptorError::UnknownSelector),
    }
}

/// Enable the clock of a SPI block.
pub fn enable_spi<B: Bus>(
    bus: &mut B,
    rcu_base: u32,
    path: ClockPath,
    spi_label: PeriphLabel,
) -> (r: Result<(), DescriptorError>)
    ensures
        enabled(*old(bus), *final(bus), rcu_base, spi_bit(spi_label), r),
{
    let _ = path;
    match spi_enable_bit(spi_label) {
        Ok(bit) => {
            bit.apply(bus, rcu_base);
            proof {
                reg::ran_one(*old(bus), *bus, bit.step(rcu_base));
            }
            Ok(())
        },
        Err(e) => Err(e),
    }
}

/// The enable bit of an advanced timer.
pub open spec fn timer_bit(path: ClockPath, timer: PeriphLabel) -> Result<EnableBit, DescriptorError> {
    match (path, timer) {
        (_, PeriphLabel::Timer0) => Ok(EnableBit { reg: APB2EN, bit: 11 }),
        (ClockPath::F10xRcc, PeriphLabel::Timer7) => Ok(EnableBit { reg: APB2EN, bit: 13 }),
        (ClockPath::F1x0Rcu, PeriphLabel::Timer7) => Err(DescriptorError::SelectorAddrMismatch),
        _ => Err(DescriptorError::UnknownSelector),
    }
}

fn timer_enable_bit(path: ClockPath, timer: PeriphLabel) -> (r: Result<EnableBit, DescriptorError>)
    ensures
        r == timer_bit(path, timer),
        r is Ok ==> r->Ok_0.bit < 32,
{
    match (path, timer) {
        (_, PeriphLabel::Timer0) => Ok(EnableBit { reg: APB2EN, bit: 11 }),
        (ClockPath::F10xRcc, PeriphLabel::Timer7) => Ok(EnableBit { reg: APB2EN, bit: 13 }),
        (ClockPath::F1x0Rcu, PeriphLabel::Timer7) => Err(DescriptorError::SelectorAddrMismatch),
        _ => Err(DescriptorError::UnknownSelector),
    }
}

/// Enable the clock of an advanced timer.
pub fn enable_timer<B: Bus>(
    bus: &mut B,
    rcu_base: u32,
    path: ClockPath,
    timer_label: PeriphLabel,
) -> (r: Result<(), DescriptorError>)
    ensures
        enabled(*old(bus), *final(bus), rcu_base, timer_bit(path, timer_label), r),
{
    match timer_enable_bit(path, timer_label) {
        Ok(bit) => {
            bit.apply(bus, rcu_base);
            proof {
                reg::ran_one(*old(bus), *bus, bit.step(rcu_base));
            }
            Ok(())
        },
        Err(e) => Err(e),
    }
}

/// The enable bit of the general-purpose timer; both families agree.
pub open spec fn general_timer_bit(timer: PeriphLabel) -> Result<EnableBit, DescriptorError> {
    match timer {
        PeriphLabel::Timer1 => Ok(EnableBit { reg: APB1EN, bit: 0 }),
        _ => Err(DescriptorError::UnknownSelector),
    }
}

fn general_timer_enable_bit(timer: PeriphLabel) -> (r: Result<EnableBit, DescriptorError>)
    ensures
        r == general_timer_bit(timer),
        r is Ok ==> r->Ok_0.bit < 32,
{
    match timer {
        PeriphLabel::Timer1 => Ok(EnableBit { reg: APB1EN, bit: 0 }),
        _ => Err(DescriptorError::UnknownSelector),
    }
}

/// Enable the clock of the general-purpose timer.
pub fn enable_general_timer<B: Bus>(
    bus: &mut B,
    rcu_base: u32,
    path: ClockPath,
    timer_label: PeriphLabel,
) -> (r: Result<(), DescriptorError>)
    ensures
        enabled(*old(bus), *final(bus), rcu_base, general_timer_bit(timer_label), r),
{
    let _ = path;
    match general_timer_enable_bit(timer_label) {
        Ok(bit) => {
            bit.apply(bus, rcu_base);
            proof {
                reg::ran_one(*old(bus), *bus, bit.step(rcu_base));
            }
            Ok(())
        },
        Err(e) => Err(e),
    }
}

/// The enable bit of an ADC.
pub open spec fn adc_bit(adc: PeriphLabel) -> Result<EnableBit, DescriptorError> {
    match adc {
        PeriphLabel::Adc0 => Ok(EnableBit { reg: APB2EN, bit: 9 }),
        PeriphLabel::Adc1 => Ok(EnableBit { reg: APB2EN, bit: 10 }),
        _ => Err(DescriptorError::UnknownSelector),
    }
}

fn adc_enable_bit(adc: PeriphLabel) -> (r: Result<EnableBit, DescriptorError>)
    ensures
        r == adc_bit(adc),
        r is Ok ==> r->Ok_0.bit < 32,
{
    match adc {
        PeriphLabel::Adc0 => Ok(EnableBit { reg: APB2EN, bit: 9 }),
        PeriphLabel::Adc1 => Ok(EnableBit { reg: APB2EN, bit: 10 }),
        _ => Err(DescriptorError::UnknownSelector),
    }
}

/// Offset of the second clock configuration register of the F1x0.
pub const CFG2: u32 = 0x30;

/// `CFG0` ADC prescaler field.
pub const CFG0_ADCPSC: u32 = 0xC000;

/// ADC prescaler code for APB2 / 6.
pub const ADCPSC_APB2_DIV6: u32 = 0x8000;

/// `CFG2` ADC clock source bit: the APB2-derived clock.
pub const CFG2_ADCSEL: u32 = 0x100;

/// Feeding the ADCs from APB2 / 6: the prescaler in `CFG0`, and on the F1x0 the source in `CFG2`.
pub open spec fn adc_clock_script(rcu_base: u32, path: ClockPath) -> Seq<Step> {
    let psc = Step::Modify {
        addr: reg::at(rcu_base, CFG0),
        mask: CFG0_ADCPSC,
        bits: ADCPSC_APB2_DIV6,
    };
    match path {
        ClockPath::F10xRcc => seq![psc],
        ClockPath::F1x0Rcu => seq![psc].push(
            Step::Modify { addr: reg::at(rcu_base, CFG2), mask: CFG2_ADCSEL, bits: CFG2_ADCSEL },
        ),
    }
}

fn adc_clock_config<B: Bus>(bus: &mut B, rcu_base: u32, path: ClockPath)
    ensures
        reg::ran(*old(bus), *final(bus), adc_clock_script(rcu_base, path)),
{
    broadcast use reg::ran_then;

    proof {
        reg::ran_nothing(*bus);
    }
    Reg32::new(rcu_base, CFG0).modify(bus, CFG0_ADCPSC, ADCPSC_APB2_DIV6);
    if let ClockPath::F1x0Rcu = path {
        Reg32::new(rcu_base, CFG2).modify(bus, CFG2_ADCSEL, CFG2_ADCSEL);
    }
}

/// Enable the clock of an ADC and feed it from APB2 / 6. A label that is no ADC is refused and
/// the bus is left alone.
pub fn enable_adc<B: Bus>(
    bus: &mut B,
    rcu_base: u32,
    path: ClockPath,
    adc_label: PeriphLabel,
) -> (r: Result<(), DescriptorError>)
    ensures
        match adc_bit(adc_label) {
            Ok(e) => {
                &&& r == Ok::<(), DescriptorError>(())
                &&& reg::ran(
                    *old(bus),
                    *final(bus),
                    seq![e.step(rcu_base)] + adc_clock_script(rcu_base, path),
                )
            },
            Err(e) => r == Err::<(), DescriptorError>(e) && *final(bus) == *old(bus),
        },
{
    match adc_enable_bit(adc_label) {
        Ok(bit) => {
            bit.apply(bus, rcu_base);
            let ghost mid = *bus;
            proof {
                reg::ran_one(*old(bus), mid, bit.step(rcu_base));
            }
            adc_clock_config(bus, rcu_base, path);
            proof {
                reg::ran_append(
                    *old(bus),
                    mid,
                    *bus,
                    seq![bit.step(rcu_base)],
                    adc_clock_script(rcu_base, path),
                );
            }
            Ok(())
        },
        Err(e) => Err(e),
    }
}

// --- the clock tree ---------------------------------------------------------------------------

/// Offset of the clock control register.
pub const CTL: u32 = 0x00;

/// Offset of the clock configuration register.
pub const CFG0: u32 = 0x04;

/// `CTL`: internal oscillator on (bit 0).
pub const CTL_IRC8MEN: u32 = 0x1;

/// `CTL`: internal oscillator stable (bit 1).
pub const CTL_IRC8MSTB: u32 = 0x2;

/// `CTL`: crystal on (bit 16).
pub const CTL_HXTALEN: u32 = 0x1_0000;

/// `CTL`: crystal stable (bit 17).
pub const CTL_HXTALSTB: u32 = 0x2_0000;

/// `CTL`: PLL on (bit 24).
pub const CTL_PLLEN: u32 = 0x0100_0000;

/// `CTL`: PLL locked (bit 25).
pub const CTL_PLLSTB: u32 = 0x0200_0000;

/// `CFG0`: system clock switch (bits 0 and 1).
pub const CFG0_SCS: u32 = 0x3;

/// `CFG0`: system clock in effect (bits 2 and 3).
pub const CFG0_SCSS: u32 = 0xC;

/// `CFG0`: AHB prescaler (bits 4 to 7).
pub const CFG0_AHBPSC: u32 = 0xF0;

/// `CFG0`: APB1 prescaler (bits 8 to 10).
pub const CFG0_APB1PSC: u32 = 0x700;

/// `CFG0`: APB2 prescaler (bits 11 to 13).
pub const CFG0_APB2PSC: u32 = 0x3800;

/// `CFG0`: PLL source (bit 16), set for the crystal.
pub const CFG0_PLLSEL: u32 = 0x1_0000;

/// `CFG0`: PLL multiplier (bits 18 to 21 and 27).
pub const CFG0_PLLMF: u32 = 0x083C_0000;

/// `CFG0`: switch to the PLL.
pub const SCS_PLL: u32 = 0x2;

/// `CFG0`: the PLL is in effect.
pub const SCSS_PLL: u32 = 0x8;

/// The flash wait-state register.
pub const FMC_WS_ADDR: u32 = 0x4002_2000;

/// The wait-state count (bits 0 to 2).
pub const FMC_WS_WSCNT: u32 = 0x7;

/// The AHB prescaler field for a divisor; a divisor without a code reads as 1.
pub open spec fn ahb_field(div: u16) -> u32 {
    if div == 2 {
        0x80
    } else if div == 4 {
        0x90
    } else if div == 8 {
        0xA0
    } else if div == 16 {
        0xB0
    } else if div == 64 {
        0xC0
    } else if div == 128 {
        0xD0
    } else if div == 256 {
        0xE0
    } else if div == 512 {
        0xF0
    } else {
        0
    }
}

fn ahb_psc_bits(div: u16) -> (r: u32)
    ensures
        r == ahb_field(div),
{
    match div {
        1 => 0,
        2 => 0x80,
        4 => 0x90,
        8 => 0xA0,
        16 => 0xB0,
        64 => 0xC0,
        128 => 0xD0,
        256 => 0xE0,
        512 => 0xF0,
        _ => 0,
    }
}

/// The APB prescaler code for a divisor; a divisor without a code reads as 1.
pub open spec fn apb_code(div: u16) -> u32 {
    if div == 2 {
        4
    } else if div == 4 {
        5
    } else if div == 8 {
        6
    } else if div == 16 {
        7
    } else {
        0
    }
}

fn apb_psc_code(div: u16) -> (r: u32)
    ensures
        r == apb_code(div),
{
    match div {
        1 => 0,
        2 => 4,
        4 => 5,
        8 => 6,
        16 => 7,
        _ => 0,
    }
}

/// The PLL multiplier field: 2 to 16 count from 0 in bits 18 to 21; 17 to 32 do so with bit 27
/// set.
pub open spec fn pll_field(mul: u8) -> u32 {
    if 2 <= mul <= 16 {
        ((mul - 2) as u32) << 18
    } else {
        0x0800_0000u32 | ((mul as u32).wrapping_sub(17) << 18)
    }
}

fn pll_mul_bits(mul: u8) -> (r: u32)
    ensures
        r == pll_field(mul),
{
    let m: u32 = mul as u32;
    if m >= 2 && m <= 16 {
        (m - 2) << 18
    } else {
        0x0800_0000u32 | (m.wrapping_sub(17) << 18)
    }
}

/// The most polls of a clock-tree gate when no cap is given: more than a part could make in
/// centuries.
pub const UNCAPPED_POLLS: u64 = u64::MAX;

/// How often a gate may be polled under a cap: once, and once more per spin of the cap.
pub open spec fn gate_limit(budget: Option<u32>) -> u64 {
    match budget {
        None => UNCAPPED_POLLS,
        Some(n) => (n + 1) as u64,
    }
}

/// Bringing the tree up: wait states first, then the oscillator, the prescalers, the PLL, and the
/// switch to it. Steps 2, 9 and 11 are the gates.
pub open spec fn tree_script(rcu_base: u32, c: ClockConfig, limit: u64) -> Seq<Step> {
    let ctl = reg::at(rcu_base, CTL);
    let cfg0 = reg::at(rcu_base, CFG0);
    let (en, stb, sel) = match c.source {
        ClockSource::Irc8m => (CTL_IRC8MEN, CTL_IRC8MSTB, 0u32),
        ClockSource::Hxtal => (CTL_HXTALEN, CTL_HXTALSTB, CFG0_PLLSEL),
    };
    Seq::empty().push(
        Step::Modify {
            addr: reg::at(FMC_WS_ADDR, 0),
            mask: FMC_WS_WSCNT,
            bits: c.wait_states as u32 & FMC_WS_WSCNT,
        },
    ).push(Step::Modify { addr: ctl, mask: en, bits: en }).push(
        Step::Await { addr: ctl, want: Want::High { mask: stb }, abort: 0, limit },
    ).push(Step::Modify { addr: cfg0, mask: CFG0_AHBPSC, bits: ahb_field(c.ahb_psc) }).push(
        Step::Modify { addr: cfg0, mask: CFG0_APB2PSC, bits: apb_code(c.apb2_psc) << 11 },
    ).push(
        Step::Modify { addr: cfg0, mask: CFG0_APB1PSC, bits: apb_code(c.apb1_psc) << 8 },
    ).push(Step::Modify { addr: cfg0, mask: CFG0_PLLSEL, bits: sel }).push(
        Step::Modify { addr: cfg0, mask: CFG0_PLLMF, bits: pll_field(c.pll_mul) },
    ).push(Step::Modify { addr: ctl, mask: CTL_PLLEN, bits: CTL_PLLEN }).push(
        Step::Await { addr: ctl, want: Want::High { mask: CTL_PLLSTB }, abort: 0, limit },
    ).push(Step::Modify { addr: cfg0, mask: CFG0_SCS, bits: SCS_PLL }).push(
        Step::Await {
            addr: cfg0,
            want: Want::Reads { mask: CFG0_SCSS, value: SCSS_PLL },
            abort: 0,
            limit,
        },
    )
}

/// What bringing the tree up comes to: the whole script, or the script broken off at a gate that
/// was not met, with the error of that gate.
pub open spec fn tree_outcome<B: Bus>(
    b0: B,
    b1: B,
    script: Seq<Step>,
    r: Result<(), ClockError>,
) -> bool {
    match r {
        Ok(()) => reg::ran(b0, b1, script),
        Err(ClockError::SourceNotStable) => reg::broke(b0, b1, script, 2),
        Err(ClockError::PllNotLocked) => reg::broke(b0, b1, script, 9),
        Err(ClockError::SwitchNotConfirmed) => reg::broke(b0, b1, script, 11),
        Err(_) => false,
    }
}

/// What asking for a tree comes to: a refusal that leaves the bus alone, or a bring-up.
pub open spec fn tree_result<B: Bus>(
    b0: B,
    b1: B,
    chip: Chip,
    clock: ClockConfig,
    budget: Option<u32>,
    r: Result<(), ClockError>,
) -> bool {
    match clock.verdict(chip.desc().clock) {
        Err(e) => r == Err::<(), ClockError>(e) && b1 == b0,
        Ok(()) => match addr::resolved(chip.desc().addrs@, PeriphLabel::Rcu) {
            Err(_) => r == Err::<(), ClockError>(ClockError::MissingRcuBase) && b1 == b0,
            Ok(rcu_base) => tree_outcome(
                b0,
                b1,
                tree_script(rcu_base, clock, gate_limit(budget)),
                r,
            ),
        },
    }
}

fn configure_tree_inner<B: Bus>(
    bus: &mut B,
    rcu_base: u32,
    profile: &ClockConfig,
    budget: Option<u32>,
) -> (r: Result<(), ClockError>)
    ensures
        tree_outcome(
            *old(bus),
            *final(bus),
            tree_script(rcu_base, *profile, gate_limit(budget)),
            r,
        ),
{
    broadcast use reg::ran_then;

    let limit: u64 = match budget {
        None => UNCAPPED_POLLS,
        Some(n) => n as u64 + 1,
    };
    let ghost b0 = *bus;
    let ghost script = tree_script(rcu_base, *profile, limit);
    proof {
        reg::ran_nothing(b0);
    }
    let ctl: Reg32 = Reg32::new(rcu_base, CTL);
    let cfg0: Reg32 = Reg32::new(rcu_base, CFG0);

    // Wait states before the clock goes up.
    Reg32::new(FMC_WS_ADDR, 0).modify(bus, FMC_WS_WSCNT, profile.wait_states as u32 & FMC_WS_WSCNT);

    let (en, stb, sel): (u32, u32, u32) = match profile.source {
        ClockSource::Irc8m => (CTL_IRC8MEN, CTL_IRC8MSTB, 0),
        ClockSource::Hxtal => (CTL_HXTALEN, CTL_HXTALSTB, CFG0_PLLSEL),
    };
    ctl.modify(bus, en, en);
    let ghost b2 = *bus;
    if ctl.poll(bus, Want::High { mask: stb }, 0, limit).is_err() {
        proof {
            assert(script.take(2) =~= Seq::empty().push(script[0]).push(script[1]));
            reg::broke_at(b0, b2, *bus, script, 2);
        }
        return Err(ClockError::SourceNotStable);
    }
    cfg0.modify(bus, CFG0_AHBPSC, ahb_psc_bits(profile.ahb_psc));
    cfg0.modify(bus, CFG0_APB2PSC, apb_psc_code(profile.apb2_psc) << 11);
    cfg0.modify(bus, CFG0_APB1PSC, apb_psc_code(profile.apb1_psc) << 8);
    cfg0.modify(bus, CFG0_PLLSEL, sel);
    cfg0.modify(bus, CFG0_PLLMF, pll_mul_bits(profile.pll_mul));
    ctl.modify(bus, CTL_PLLEN, CTL_PLLEN);
    let ghost b9 = *bus;
    if ctl.poll(bus, Want::High { mask: CTL_PLLSTB }, 0, limit).is_err() {
        proof {
            assert(script.take(9) =~= Seq::empty().push(script[0]).push(script[1]).push(script[2]).push(script[3]).push(script[4]).push(script[5]).push(script[6]).push(script[7]).push(script[8]));
            reg::broke_at(b0, b9, *bus, script, 9);
        }
        return Err(ClockError::PllNotLocked);
    }
    cfg0.modify(bus, CFG0_SCS, SCS_PLL);
    let ghost b11 = *bus;
    if cfg0.poll(bus, Want::Reads { mask: CFG0_SCSS, value: SCSS_PLL }, 0, limit).is_err() {
        proof {
            assert(script.take(11) =~= Seq::empty().push(script[0]).push(script[1]).push(script[2]).push(script[3]).push(script[4]).push(script[5]).push(script[6]).push(script[7]).push(script[8]).push(script[9]).push(script[10]));
            reg::broke_at(b0, b11, *bus, script, 11);
        }
        return Err(ClockError::SwitchNotConfirmed);
    }
    Ok(())
}

/// Bring the clock tree up, waiting at each gate for as long as it takes.
///
/// A tree the family cannot do, or a chip without an RCU base, is refused before any register is
/// touched.
pub fn configure_tree<B: Bus>(bus: &mut B, chip: &Chip, clock: &ClockConfig) -> (r: Result<
    (),
    ClockError,
>)
    ensures
        tree_result(*old(bus), *final(bus), *chip, *clock, None, r),
{
    match clock.validate_for(chip.clock()) {
        Ok(()) => {},
        Err(e) => {
            return Err(e);
        },
    }
    match chip.rcu_base() {
        Ok(rcu_base) => configure_tree_inner(bus, rcu_base, clock, None),
        Err(e) => Err(ClockError::from(e)),
    }
}

/// A cap for [`configure_tree_timeout`] that a healthy part never reaches.
pub const DEFAULT_CLOCK_SPIN_CAP: u32 = 1_000_000;

/// Bring the clock tree up, giving up at a gate after `max_spins` polls beyond the first.
pub fn configure_tree_timeout<B: Bus>(
    bus: &mut B,
    chip: &Chip,
    clock: &ClockConfig,
    max_spins: u32,
) -> (r: Result<(), ClockError>)
    ensures
        tree_result(*old(bus), *final(bus), *chip, *clock, Some(max_spins), r),
{
    match clock.validate_for(chip.clock()) {
        Ok(()) => {},
        Err(e) => {
            return Err(e);
        },
    }
    match chip.rcu_base() {
        Ok(rcu_base) => configure_tree_inner(bus, rcu_base, clock, Some(max_spins)),
        Err(e) => Err(ClockError::from(e)),
    }
}

// --- laws -------------------------------------------------------------------------------------

/// Enabling a clock sets its bit and leaves every other bit of the register, and every other
/// register, as it was.
pub proof fn law_enable_sets_one_bit(e: EnableBit, rcu_base: u32, x: u32, w: u32)
    ensures
        reg::word_after(seq![e.step(rcu_base)], x, w) == if x == reg::at(rcu_base, e.reg) {
            w | (1u32 << e.bit)
        } else {
            w
        },
{
    broadcast use crate::reg::group_after;

    bits::merge_fields(w, 1u32 << e.bit, 0, 0);
}

/// Enabling a clock twice is enabling it once.
pub proof fn law_enable_is_idempotent(e: EnableBit, rcu_base: u32, x: u32, w: u32)
    ensures
        reg::word_after(seq![e.step(rcu_base)], x, reg::word_after(seq![e.step(rcu_base)], x, w))
            == reg::word_after(seq![e.step(rcu_base)], x, w),
{
    broadcast use crate::reg::group_after;

    bits::merge_fields(w, 1u32 << e.bit, 1u32 << e.bit, 1u32 << e.bit);
}

/// What the AHB prescaler divides by, read off its four bits in place: not at all with the top one
/// clear, else by a power of two, of which 32 is left out.
pub open spec fn ahb_divisor(field: u32) -> int {
    if field < 0x80 {
        1
    } else {
        seq![2int, 4, 8, 16, 64, 128, 256, 512][(field - 0x80) / 16]
    }
}

/// What an APB prescaler divides by, read off its three bits: not at all with the top one clear,
/// else by 2, 4, 8 or 16.
pub open spec fn apb_divisor(code: int) -> int {
    if code < 4 {
        1
    } else {
        seq![2int, 4, 8, 16][code - 4]
    }
}

/// What the PLL multiplies by, read off its five bits in place: bits 18 to 21 count from 2, or from
/// 17 with bit 27 set.
pub open spec fn pll_multiplier(field: u32) -> int {
    if field < 0x0800_0000 {
        field / 0x4_0000 + 2
    } else {
        (field - 0x0800_0000) / 0x4_0000 + 17
    }
}

/// The codes of the prescaler and multiplier fields tell every two legal values apart, and fit
/// their fields.
pub proof fn law_codes_are_faithful(a: ClockConfig, b: ClockConfig, path: ClockPath)
    requires
        a.verdict(path) is Ok,
        b.verdict(path) is Ok,
    ensures
        ahb_field(a.ahb_psc) == ahb_field(b.ahb_psc) <==> a.ahb_psc == b.ahb_psc,
        apb_code(a.apb1_psc) == apb_code(b.apb1_psc) <==> a.apb1_psc == b.apb1_psc,
        apb_code(a.apb2_psc) == apb_code(b.apb2_psc) <==> a.apb2_psc == b.apb2_psc,
        pll_field(a.pll_mul) == pll_field(b.pll_mul) <==> a.pll_mul == b.pll_mul,
        ahb_field(a.ahb_psc) & CFG0_AHBPSC == ahb_field(a.ahb_psc),
        pll_field(a.pll_mul) & CFG0_PLLMF == pll_field(a.pll_mul),
        pll_multiplier(pll_field(a.pll_mul)) == a.pll_mul,
{
    let (m, n) = (a.pll_mul as u32, b.pll_mul as u32);
    let f = ahb_field(a.ahb_psc);
    assert(f & 0xF0 == f) by (bit_vector)
        requires
            f == 0 || f == 0x80 || f == 0x90 || f == 0xA0 || f == 0xB0 || f == 0xC0 || f == 0xD0
                || f == 0xE0 || f == 0xF0,
    ;
    let am = if m <= 16 {
        (m - 2) as u32
    } else {
        (m - 17) as u32
    };
    let bm = if n <= 16 {
        (n - 2) as u32
    } else {
        (n - 17) as u32
    };
    assert(((am << 18) == (bm << 18) <==> am == bm) && ((0x0800_0000u32 | (am << 18)) == (
    0x0800_0000u32 | (bm << 18)) <==> am == bm) && (am << 18) != (0x0800_0000u32 | (bm << 18)) && (
    0x0800_0000u32 | (am << 18)) != (bm << 18) && (am << 18) & 0x083C_0000 == (am << 18) && (
    0x0800_0000u32 | (am << 18)) & 0x083C_0000 == (0x0800_0000u32 | (am << 18)) && (am << 18)
        == 0x4_0000 * am && (0x0800_0000u32 | (am << 18)) == 0x0800_0000 + 0x4_0000 * am)
        by (bit_vector)
        requires
            am < 16,
            bm < 16,
    ;
}

proof fn cfg0_chain(w: u32, ahb: u32, apb2: u32, apb1: u32, sel: u32, mf: u32)
    by (bit_vector)
    requires
        ahb & 0xF0 == ahb,
        apb2 < 8,
        apb1 < 8,
        sel & 0x1_0000 == sel,
        mf & 0x083C_0000 == mf,
    ensures
        reg::merge(
            reg::merge(
                reg::merge(
                    reg::merge(
                        reg::merge(reg::merge(w, 0xF0, ahb), 0x3800, apb2 << 11),
                        0x700,
                        apb1 << 8,
                    ),
                    0x1_0000,
                    sel,
                ),
                0x083C_0000,
                mf,
            ),
            0x3,
            0x2,
        ) == (w & !0x083D_3FF3u32) | ahb | (apb2 << 11) | (apb1 << 8) | sel | mf | 0x2,
        (w & !0x083D_3FF3u32) & 0xC == w & 0xC,
        ({
            let r = (w & !0x083D_3FF3u32) | ahb | (apb2 << 11) | (apb1 << 8) | sel | mf | 0x2;
            r & 0xF0 == ahb && r & 0x3800 == 2048 * apb2 && r & 0x700 == 256 * apb1 && r & 0x1_0000
                == sel && r & 0x083C_0000 == mf && r & 3 == 2 && r & !0x083D_3FF3u32 == w
                & !0x083D_3FF3u32
        }),
{
}

/// What a legal tree leaves in a flat space: `CFG0` holds the codes of the prescalers, the PLL
/// source and multiplier and the switch to the PLL, with every other bit as it was; `CTL` has the
/// oscillator and the PLL on; the wait-state field holds the wait states.
pub proof fn law_tree_registers(
    rcu_base: u32,
    c: ClockConfig,
    path: ClockPath,
    limit: u64,
    w: u32,
)
    requires
        c.verdict(path) is Ok,
        rcu_base != FMC_WS_ADDR,
        reg::at(rcu_base, CFG0) != FMC_WS_ADDR,
    ensures
        reg::word_after(tree_script(rcu_base, c, limit), reg::at(rcu_base, CFG0), w) == (w
            & !0x083D_3FF3u32) | ahb_field(c.ahb_psc) | (apb_code(c.apb2_psc) << 11) | (apb_code(
            c.apb1_psc,
        ) << 8) | (match c.source {
            ClockSource::Irc8m => 0u32,
            ClockSource::Hxtal => CFG0_PLLSEL,
        }) | pll_field(c.pll_mul) | SCS_PLL,
        reg::word_after(tree_script(rcu_base, c, limit), reg::at(rcu_base, CTL), w) == w | (
        match c.source {
            ClockSource::Irc8m => CTL_IRC8MEN,
            ClockSource::Hxtal => CTL_HXTALEN,
        }) | CTL_PLLEN,
        reg::word_after(tree_script(rcu_base, c, limit), FMC_WS_ADDR, w) == reg::merge(
            w,
            FMC_WS_WSCNT,
            c.wait_states as u32,
        ),
{
    broadcast use crate::reg::group_after;

    law_codes_are_faithful(c, c, path);
    let sel = match c.source {
        ClockSource::Irc8m => 0u32,
        ClockSource::Hxtal => CFG0_PLLSEL,
    };
    let en = match c.source {
        ClockSource::Irc8m => CTL_IRC8MEN,
        ClockSource::Hxtal => CTL_HXTALEN,
    };
    bits::masks();
    cfg0_chain(
        w,
        ahb_field(c.ahb_psc),
        apb_code(c.apb2_psc),
        apb_code(c.apb1_psc),
        sel,
        pll_field(c.pll_mul),
    );
    bits::merge_fields(w, en, 0, 0);
    bits::merge_fields(w | en, CTL_PLLEN, 0, 0);
    let ws = c.wait_states as u32;
    assert(reg::merge(w, 7, ws & 7) == reg::merge(w, 7, ws)) by (bit_vector);
}

/// The same step, or the same wait with another limit.
pub open spec fn same_but_limit(s1: Step, s2: Step) -> bool {
    match (s1, s2) {
        (
            Step::Await { addr: a1, want: w1, abort: b1, .. },
            Step::Await { addr: a2, want: w2, abort: b2, .. },
        ) => a1 == a2 && w1 == w2 && b1 == b2,
        _ => s1 == s2,
    }
}

/// A capped bring-up goes through the same steps in the same order as an uncapped one; only the
/// waits differ, in how long they last. One that succeeds leaves the registers of a flat space
/// exactly as an uncapped one does.
pub proof fn law_cap_does_not_change_the_writes(
    rcu_base: u32,
    c: ClockConfig,
    l1: u64,
    l2: u64,
    x: u32,
    w: u32,
)
    ensures
        tree_script(rcu_base, c, l1).len() == tree_script(rcu_base, c, l2).len(),
        forall|i: int|
            #![trigger tree_script(rcu_base, c, l1)[i]]
            #![trigger tree_script(rcu_base, c, l2)[i]]
            0 <= i < tree_script(rcu_base, c, l1).len() ==> same_but_limit(
                tree_script(rcu_base, c, l1)[i],
                tree_script(rcu_base, c, l2)[i],
            ),
        reg::word_after(tree_script(rcu_base, c, l1), x, w) == reg::word_after(
            tree_script(rcu_base, c, l2),
            x,
            w,
        ),
{
    broadcast use crate::reg::group_after;

}

/// A legal tree is what the hardware makes of its registers: the prescalers divide by what was
/// asked for, the PLL multiplies by what was asked for and runs from the source asked for, the
/// system runs from the PLL, the flash waits as long as asked for, and nothing else has changed.
pub proof fn law_tree_is_what_was_asked_for(
    rcu_base: u32,
    c: ClockConfig,
    path: ClockPath,
    limit: u64,
    w: u32,
)
    requires
        c.verdict(path) is Ok,
        rcu_base != 0x4002_2000,
        reg::at(rcu_base, 4) != 0x4002_2000,
    ensures
        ({
            let script = tree_script(rcu_base, c, limit);
            let cfg0 = reg::word_after(script, reg::at(rcu_base, 4), w);
            let ctl = reg::word_after(script, reg::at(rcu_base, 0), w);
            &&& ahb_divisor(cfg0 & 0xF0) == c.ahb_psc
            &&& apb_divisor((cfg0 & 0x700) as int / 256) == c.apb1_psc
            &&& apb_divisor((cfg0 & 0x3800) as int / 2048) == c.apb2_psc
            &&& pll_multiplier(cfg0 & 0x083C_0000) == c.pll_mul
            &&& cfg0 & 0x1_0000 == (if c.source is Hxtal {
                0x1_0000u32
            } else {
                0
            })
            &&& cfg0 & 3 == 2
            &&& cfg0 & !0x083D_3FF3u32 == w & !0x083D_3FF3u32
            &&& ctl == w | (if c.source is Hxtal {
                0x1_0000u32
            } else {
                1
            }) | 0x0100_0000
            &&& reg::word_after(script, 0x4002_2000, w) & 7 == c.wait_states
            &&& reg::word_after(script, 0x4002_2000, w) & !7u32 == w & !7u32
        }),
{
    law_tree_registers(rcu_base, c, path, limit, w);
    law_codes_are_faithful(c, c, path);
    let sel = match c.source {
        ClockSource::Irc8m => 0u32,
        ClockSource::Hxtal => CFG0_PLLSEL,
    };
    bits::masks();
    cfg0_chain(
        w,
        ahb_field(c.ahb_psc),
        apb_code(c.apb2_psc),
        apb_code(c.apb1_psc),
        sel,
        pll_field(c.pll_mul),
    );
    let ws = c.wait_states as u32;
    bits::merge_fields(w, 7, ws, 0);
    bits::no_bits(ws);
}

/// The order of a bring-up: the flash waits before anything is switched, the oscillator is on and
/// stable before the PLL is set up, the prescalers are set before the PLL is on, and the system is
/// switched to the PLL only after a wait for its lock; last comes the wait for the switch. Every
/// wait looks at the flag of what it waits for.
pub proof fn law_tree_order(rcu_base: u32, c: ClockConfig, limit: u64)
    ensures
        ({
            let script = tree_script(rcu_base, c, limit);
            let ctl = reg::at(rcu_base, 0);
            let cfg0 = reg::at(rcu_base, 4);
            let (on, stable) = if c.source is Hxtal {
                (0x1_0000u32, 0x2_0000u32)
            } else {
                (1u32, 2u32)
            };
            &&& script.len() == 12
            &&& script[0] matches Step::Modify { addr, mask: 7, .. } && addr == 0x4002_2000
            &&& script[1] == (Step::Modify { addr: ctl, mask: on, bits: on })
            &&& script[2] == (Step::Await {
                addr: ctl,
                want: Want::High { mask: stable },
                abort: 0,
                limit,
            })
            &&& forall|i: int|
                3 <= i < 8 ==> (#[trigger] script[i] matches Step::Modify { addr, mask, .. } && addr
                    == cfg0 && mask == (if i == 3 {
                    0xF0u32
                } else if i == 4 {
                    0x3800
                } else if i == 5 {
                    0x700
                } else if i == 6 {
                    0x1_0000
                } else {
                    0x083C_0000
                }))
            &&& script[8] == (Step::Modify { addr: ctl, mask: 0x0100_0000, bits: 0x0100_0000 })
            &&& script[9] == (Step::Await {
                addr: ctl,
                want: Want::High { mask: 0x0200_0000 },
                abort: 0,
                limit,
            })
            &&& script[10] == (Step::Modify { addr: cfg0, mask: 3, bits: 2 })
            &&& script[11] == (Step::Await {
                addr: cfg0,
                want: Want::Reads { mask: 0xC, value: 8 },
                abort: 0,
                limit,
            })
        }),
{
}

/// The flag a gate of the bring-up waits for, by the error it stands for: the register and the bits
/// that are not what they should be.
pub open spec fn gate_unmet(rcu_base: u32, source: ClockSource, e: ClockError, x: Access) -> bool {
    &&& x matches Access::Load { addr, value }
    &&& match e {
        ClockError::SourceNotStable => addr == reg::at(rcu_base, 0) && value & (if source is Hxtal {
            0x2_0000u32
        } else {
            2
        }) == 0,
        ClockError::PllNotLocked => addr == reg::at(rcu_base, 0) && value & 0x0200_0000 == 0,
        ClockError::SwitchNotConfirmed => addr == reg::at(rcu_base, 4) && value & 0xC != 8,
        _ => false,
    }
}

/// An error of a gate.
pub open spec fn of_gate(e: ClockError) -> bool {
    e is SourceNotStable || e is PllNotLocked || e is SwitchNotConfirmed
}

proof fn gate_polls<B: Bus>(
    b0: B,
    b1: B,
    rcu_base: u32,
    c: ClockConfig,
    limit: u64,
    e: ClockError,
)
    requires
        limit > 0,
        of_gate(e),
        tree_outcome(b0, b1, tree_script(rcu_base, c, limit), Err(e)),
    ensures
        b1.log().len() >= b0.log().len() + limit + 1,
        b1.log()[b1.log().len() - limit - 1] is Store,
        forall|j: int|
            b1.log().len() - limit <= j < b1.log().len() ==> gate_unmet(
                rcu_base,
                c.source,
                e,
                #[trigger] b1.log()[j],
            ),
{
    let script = tree_script(rcu_base, c, limit);
    let k: int = match e {
        ClockError::SourceNotStable => 2,
        ClockError::PllNotLocked => 9,
        _ => 11,
    };
    let m = choose|m: B|
        reg::ran(b0, m, script.take(k)) && #[trigger] reg::stuck(m, b1, script[k]);
    let before = script.take(k - 1);
    let start = script[k - 1];
    assert(script.take(k) =~= before.push(start));
    let z = reg::last_step(b0.log(), m.log(), before, start);
    reg::performs_longer(b0.log(), z, before);
    let v = reg::last_load(b1.log());
    bits::no_bits(v);
    let n = m.log().len() as int;
    assert(b1.log().len() == n + limit);
    assert(b1.log().take(n) == m.log());
    assert(b1.log()[n - 1] == m.log()[n - 1]);
    assert forall|j: int| n <= j < b1.log().len() implies gate_unmet(
        rcu_base,
        c.source,
        e,
        #[trigger] b1.log()[j],
    ) by {
        if j < b1.log().len() - 1 {
            assert(b1.log().drop_last()[j] == b1.log()[j]);
        }
    }
}

/// Without a cap a gate is given up only after more polls than any part could make: each of the
/// last 2^64 - 1 accesses looked at its flag and did not find it.
pub proof fn law_uncapped_gates_are_waited_for<B: Bus>(
    b0: B,
    b1: B,
    chip: Chip,
    c: ClockConfig,
    e: ClockError,
    j: int,
)
    requires
        tree_result(b0, b1, chip, c, None, Err(e)),
        of_gate(e),
        1 <= j <= 0xFFFF_FFFF_FFFF_FFFF,
    ensures
        b1.log().len() > b0.log().len() + j,
        gate_unmet(chip.desc().addrs@[PeriphLabel::Rcu], c.source, e, b1.log()[b1.log().len() - j]),
{
    gate_polls(b0, b1, chip.desc().addrs@[PeriphLabel::Rcu], c, gate_limit(None), e);
}

/// With a cap of `n` spins a gate is given up after exactly `n + 1` polls, none of which found its
/// flag: the access before them is the store that started what is waited for.
pub proof fn law_capped_gates_are_polled_so_often<B: Bus>(
    b0: B,
    b1: B,
    chip: Chip,
    c: ClockConfig,
    n: u32,
    e: ClockError,
)
    requires
        tree_result(b0, b1, chip, c, Some(n), Err(e)),
        of_gate(e),
    ensures
        b1.log().len() >= b0.log().len() + n + 2,
        b1.log()[b1.log().len() - n - 2] is Store,
        forall|j: int|
            b1.log().len() - n - 1 <= j < b1.log().len() ==> gate_unmet(
                chip.desc().addrs@[PeriphLabel::Rcu],
                c.source,
                e,
                #[trigger] b1.log()[j],
            ),
{
    gate_polls(b0, b1, chip.desc().addrs@[PeriphLabel::Rcu], c, gate_limit(Some(n)), e);
}

/// What a capped bring-up can do, one with a higher cap can, and so can one without.
pub proof fn law_patience_never_hurts<B: Bus>(
    b0: B,
    b1: B,
    chip: Chip,
    c: ClockConfig,
    n: u32,
    more: Option<u32>,
)
    requires
        tree_result(b0, b1, chip, c, Some(n), Ok(())),
        more matches Some(k) ==> n <= k,
    ensures
        tree_result(b0, b1, chip, c, more, Ok(())),
{
    let rcu = chip.desc().addrs@[PeriphLabel::Rcu];
    let s1 = tree_script(rcu, c, gate_limit(Some(n)));
    let s2 = tree_script(rcu, c, gate_limit(more));
    law_tree_order(rcu, c, gate_limit(Some(n)));
    law_tree_order(rcu, c, gate_limit(more));
    assert forall|i: int| 0 <= i < s1.len() implies reg::as_patient(#[trigger] s1[i], s2[i]) by {}
    reg::patience(b0, b1, s1, s2);
}

/// A divisor is legal exactly where some code of its prescaler field divides by it, and then the
/// field holds that code.
pub proof fn law_divisors_are_those_with_a_code(div: u16, k: u32)
    requires
        k < 16,
    ensures
        legal_ahb_psc(div) <==> ahb_divisor(ahb_field(div)) == div,
        legal_apb_psc(div) <==> apb_divisor(apb_code(div) as int) == div,
        ahb_divisor((16 * k) as u32) == div ==> legal_ahb_psc(div),
        k < 8 && apb_divisor(k as int) == div ==> legal_apb_psc(div),
{
}

/// What a tree is refused for: a PLL that cannot multiply so; else a prescaler that cannot divide
/// so; else a system clock above 108 MHz on F10x or 72 MHz on F1x0, more than seven wait states, or
/// none above 48 MHz on F1x0. Every other tree is accepted.
pub proof fn law_verdict(c: ClockConfig, path: ClockPath)
    ensures
        ({
            let divided = {
                &&& ahb_divisor(ahb_field(c.ahb_psc)) == c.ahb_psc
                &&& apb_divisor(apb_code(c.apb1_psc) as int) == c.apb1_psc
                &&& apb_divisor(apb_code(c.apb2_psc) as int) == c.apb2_psc
            };
            let multiplied = 2 <= c.pll_mul <= 32;
            let fast = if path is F10xRcc {
                c.sysclk_hz > 108_000_000
            } else {
                c.sysclk_hz > 72_000_000 || c.sysclk_hz > 48_000_000 && c.wait_states == 0
            };
            &&& c.verdict(path) == Err::<(), _>(ClockError::InvalidPll) <==> !multiplied
            &&& c.verdict(path) == Err::<(), _>(ClockError::InvalidPrescaler) <==> multiplied
                && !divided
            &&& c.verdict(path) == Err::<(), _>(ClockError::InvalidWaitStates) <==> multiplied
                && divided && (fast || c.wait_states > 7)
            &&& c.verdict(path) is Ok <==> multiplied && divided && !fast && c.wait_states <= 7
        }),
{
}

/// The ADCs run from APB2 over six: the prescaler field, which counts pairs from one, holds two. On
/// F1x0 they are switched to that clock. No other bit and no other register changes.
pub proof fn law_adc_clock(rcu_base: u32, path: ClockPath, w: u32, x: u32)
    ensures
        ({
            let script = adc_clock_script(rcu_base, path);
            let cfg0 = reg::word_after(script, reg::at(rcu_base, 0x04), w);
            &&& cfg0 & 0xC000 == 0x8000
            &&& 2 * ((cfg0 & 0xC000) as int / 0x4000 + 1) == 6
            &&& cfg0 & !0xC000u32 == w & !0xC000u32
            &&& reg::word_after(script, reg::at(rcu_base, 0x30), w) == (if path is F1x0Rcu {
                w | 0x100
            } else {
                w
            })
            &&& x != reg::at(rcu_base, 0x04) && x != reg::at(rcu_base, 0x30) ==> reg::word_after(
                script,
                x,
                w,
            ) == w
        }),
{
    broadcast use crate::reg::group_after;

    bits::masks();
    bits::merge_fields(w, 0xC000, 0x8000, 0);
    bits::merge_fields(w, 0x100, 0x100, 0);
}

/// The enable bit of the block at `base`: each bus has an enable register, in which a block has the
/// bit of the kilobyte it lies in.
pub open spec fn slot(base: int) -> EnableBit {
    if base < 0x4001_0000 {
        EnableBit { reg: 0x1C, bit: ((base - 0x4000_0000) / 0x400) as u8 }
    } else {
        EnableBit { reg: 0x18, bit: ((base - 0x4001_0000) / 0x400) as u8 }
    }
}

/// A block is clocked by the bit of the place it has on its bus. A label of another kind is refused,
/// and so is one that F1x0 does not have. The ports of F1x0 are on AHB, from bit 17 on in order.
pub proof fn law_enable_bits(path: ClockPath, label: PeriphLabel)
    ensures
        usart_bit(path, label) == (match label {
            PeriphLabel::Usart0 => Ok(slot(0x4001_3800)),
            PeriphLabel::Usart1 => Ok(slot(0x4000_4400)),
            PeriphLabel::Usart2 => if path is F10xRcc {
                Ok(slot(0x4000_4800))
            } else {
                Err(DescriptorError::SelectorAddrMismatch)
            },
            _ => Err(DescriptorError::UnknownSelector),
        }),
        gpio_bit(path, label) == (match label {
            PeriphLabel::Gpioa => port_slot(path, 0),
            PeriphLabel::Gpiob => port_slot(path, 1),
            PeriphLabel::Gpioc => port_slot(path, 2),
            PeriphLabel::Gpiod => port_slot(path, 3),
            PeriphLabel::Gpioe => if path is F10xRcc {
                port_slot(path, 4)
            } else {
                Err(DescriptorError::SelectorAddrMismatch)
            },
            PeriphLabel::Gpiof => port_slot(path, 5),
            _ => Err(DescriptorError::UnknownSelector),
        }),
        i2c_bit(label) == (match label {
            PeriphLabel::I2c0 => Ok(slot(0x4000_5400)),
            PeriphLabel::I2c1 => Ok(slot(0x4000_5800)),
            _ => Err(DescriptorError::UnknownSelector),
        }),
        spi_bit(label) == (match label {
            PeriphLabel::Spi0 => Ok(slot(0x4001_3000)),
            PeriphLabel::Spi1 => Ok(slot(0x4000_3800)),
            _ => Err(DescriptorError::UnknownSelector),
        }),
        timer_bit(path, label) == (match label {
            PeriphLabel::Timer0 => Ok(slot(0x4001_2C00)),
            PeriphLabel::Timer7 => if path is F10xRcc {
                Ok(slot(0x4001_3400))
            } else {
                Err(DescriptorError::SelectorAddrMismatch)
            },
            _ => Err(DescriptorError::UnknownSelector),
        }),
        general_timer_bit(label) == (match label {
            PeriphLabel::Timer1 => Ok(slot(0x4000_0000)),
            _ => Err(DescriptorError::UnknownSelector),
        }),
        adc_bit(label) == (match label {
            PeriphLabel::Adc0 => Ok(slot(0x4001_2400)),
            PeriphLabel::Adc1 => Ok(slot(0x4001_2800)),
            _ => Err(DescriptorError::UnknownSelector),
        }),
{
}

/// The enable bit of port `i`.
pub open spec fn port_slot(path: ClockPath, i: int) -> Result<EnableBit, DescriptorError> {
    if path is F10xRcc {
        Ok(slot(0x4001_0800 + 0x400 * i))
    } else {
        Ok(EnableBit { reg: 0x14, bit: (17 + i) as u8 })
    }
}

} // verus!
