//! Peripheral labels and the base-address table.
//!
//! Labels count from zero, as GigaDevice's do (`Usart0` is ST's `USART1`).

use vstd::prelude::*;

use crate::descriptor::{ClockPath, GpioPath};
use crate::error::DescriptorError;

pub mod ranges;

verus! {

/// A peripheral the address table can carry a base for.
///
/// The order is fixed: a label's place is its index into the table, and labels are only ever
/// appended.
#[derive(Debug, Clone, Copy, PartialEq, Eq, Structural)]
pub enum PeriphLabel {
    Usart0,
    Usart1,
    Usart2,
    Gpioa,
    Gpiob,
    Gpioc,
    Gpiod,
    Gpioe,
    Gpiof,
    Rcu,
    I2c0,
    I2c1,
    Spi0,
    Spi1,
    Adc0,
    Adc1,
    Timer0,
    Timer7,
    Fwdgt,
    /// The general-purpose timer on APB1.
    Timer1,
    /// The third ADC of the high-density F10x parts.
    Adc2,
}

/// Slots of the address table: one per label.
pub const SLOTS: usize = 21;

impl PeriphLabel {
    /// Labels of the peripherals that drivers resolve, `Usart0` to `Fwdgt`; what comes after
    /// them is carried as data only.
    pub const COUNT: usize = 19;

    /// The label's place in the order of declaration.
    pub open spec fn place(self) -> usize {
        match self {
            PeriphLabel::Usart0 => 0,
            PeriphLabel::Usart1 => 1,
            PeriphLabel::Usart2 => 2,
            PeriphLabel::Gpioa => 3,
            PeriphLabel::Gpiob => 4,
            PeriphLabel::Gpioc => 5,
            PeriphLabel::Gpiod => 6,
            PeriphLabel::Gpioe => 7,
            PeriphLabel::Gpiof => 8,
            PeriphLabel::Rcu => 9,
            PeriphLabel::I2c0 => 10,
            PeriphLabel::I2c1 => 11,
            PeriphLabel::Spi0 => 12,
            PeriphLabel::Spi1 => 13,
            PeriphLabel::Adc0 => 14,
            PeriphLabel::Adc1 => 15,
            PeriphLabel::Timer0 => 16,
            PeriphLabel::Timer7 => 17,
            PeriphLabel::Fwdgt => 18,
            PeriphLabel::Timer1 => 19,
            PeriphLabel::Adc2 => 20,
        }
    }

    /// The label's index into the address table.
    pub fn index(self) -> (r: usize)
        ensures
            r == self.place(),
            r < SLOTS,
    {
        match self {
            PeriphLabel::Usart0 => 0,
            PeriphLabel::Usart1 => 1,
            PeriphLabel::Usart2 => 2,
            PeriphLabel::Gpioa => 3,
            PeriphLabel::Gpiob => 4,
            PeriphLabel::Gpioc => 5,
            PeriphLabel::Gpiod => 6,
            PeriphLabel::Gpioe => 7,
            PeriphLabel::Gpiof => 8,
            PeriphLabel::Rcu => 9,
            PeriphLabel::I2c0 => 10,
            PeriphLabel::I2c1 => 11,
            PeriphLabel::Spi0 => 12,
            PeriphLabel::Spi1 => 13,
            PeriphLabel::Adc0 => 14,
            PeriphLabel::Adc1 => 15,
            PeriphLabel::Timer0 => 16,
            PeriphLabel::Timer7 => 17,
            PeriphLabel::Fwdgt => 18,
            PeriphLabel::Timer1 => 19,
            PeriphLabel::Adc2 => 20,
        }
    }

    /// A GPIO port.
    pub fn is_gpio(self) -> (r: bool)
        ensures
            r == (self is Gpioa || self is Gpiob || self is Gpioc || self is Gpiod || self is Gpioe
                || self is Gpiof),
    {
        matches!(
            self,
            PeriphLabel::Gpioa
                | PeriphLabel::Gpiob
                | PeriphLabel::Gpioc
                | PeriphLabel::Gpiod
                | PeriphLabel::Gpioe
                | PeriphLabel::Gpiof
        )
    }

    /// An I2C block.
    pub fn is_i2c(self) -> (r: bool)
        ensures
            r == (self is I2c0 || self is I2c1),
    {
        matches!(self, PeriphLabel::I2c0 | PeriphLabel::I2c1)
    }

    /// A SPI block.
    pub fn is_spi(self) -> (r: bool)
        ensures
            r == (self is Spi0 || self is Spi1),
    {
        matches!(self, PeriphLabel::Spi0 | PeriphLabel::Spi1)
    }

    /// An ADC a driver resolves.
    pub fn is_adc(self) -> (r: bool)
        ensures
            r == (self is Adc0 || self is Adc1),
    {
        matches!(self, PeriphLabel::Adc0 | PeriphLabel::Adc1)
    }

    /// An advanced timer.
    pub fn is_timer(self) -> (r: bool)
        ensures
            r == (self is Timer0 || self is Timer7),
    {
        matches!(self, PeriphLabel::Timer0 | PeriphLabel::Timer7)
    }

    /// The free watchdog.
    pub fn is_fwdgt(self) -> (r: bool)
        ensures
            r == (self is Fwdgt),
    {
        matches!(self, PeriphLabel::Fwdgt)
    }
}

/// No two labels share a place in the table.
pub proof fn law_places_are_distinct(a: PeriphLabel, b: PeriphLabel)
    ensures
        a.place() == b.place() <==> a == b,
        a.place() < SLOTS,
{
}

/// One base address per label, or none.
#[derive(Debug, Clone, Copy, PartialEq, Eq)]
pub struct AddrTable {
    bases: [Option<u32>; SLOTS],
}

impl View for AddrTable {
    type V = Map<PeriphLabel, u32>;

    closed spec fn view(&self) -> Map<PeriphLabel, u32> {
        Map::new(
            |label: PeriphLabel| self.bases@[label.place() as int] is Some,
            |label: PeriphLabel| self.bases@[label.place() as int]->0,
        )
    }
}

impl Default for AddrTable {
    fn default() -> (r: Self)
        ensures
            r@ == Map::<PeriphLabel, u32>::empty(),
    {
        Self::new()
    }
}

/// What looking `label` up in `bases` yields.
pub open spec fn lookup(bases: Map<PeriphLabel, u32>, label: PeriphLabel) -> Option<u32> {
    if bases.contains_key(label) {
        Some(bases[label])
    } else {
        None
    }
}

/// What resolving `label` in `bases` yields: its base, or the error that names it.
pub open spec fn resolved(bases: Map<PeriphLabel, u32>, label: PeriphLabel) -> Result<
    u32,
    DescriptorError,
> {
    if bases.contains_key(label) {
        Ok(bases[label])
    } else {
        Err(DescriptorError::MissingBase(label))
    }
}

/// The verdict on the base of `label`: it must be there and lie in `window`.
pub open spec fn placed(
    bases: Map<PeriphLabel, u32>,
    label: PeriphLabel,
    window: (u32, u32),
) -> Result<(), DescriptorError> {
    if !bases.contains_key(label) {
        Err(DescriptorError::MissingBase(label))
    } else if ranges::inside(bases[label], window) {
        Ok(())
    } else {
        Err(DescriptorError::SelectorAddrMismatch)
    }
}

impl AddrTable {
    /// An empty table.
    pub fn new() -> (r: Self)
        ensures
            r@ == Map::<PeriphLabel, u32>::empty(),
    {
        let r = Self { bases: [None; SLOTS] };
        assert(r@ =~= Map::<PeriphLabel, u32>::empty());
        r
    }

    /// Give `label` the base `base`, replacing any it had.
    pub fn set(&mut self, label: PeriphLabel, base: u32)
        ensures
            final(self)@ == old(self)@.insert(label, base),
    {
        let i: usize = label.index();
        self.bases[i] = Some(base);
        assert(self@ =~= old(self)@.insert(label, base));
    }

    /// The table with `base` for `label` where `present`, else the table as it is.
    pub fn with(self, present: bool, label: PeriphLabel, base: u32) -> (r: Self)
        ensures
            r@ == (if present {
                self@.insert(label, base)
            } else {
                self@
            }),
    {
        let mut r = self;
        if present {
            r.set(label, base);
        }
        r
    }

    /// The base of `label`, if there is one.
    pub fn get(&self, label: PeriphLabel) -> (r: Option<u32>)
        ensures
            r == lookup(self@, label),
    {
        self.bases[label.index()]
    }

    /// The base of `label`.
    pub fn resolve(&self, label: PeriphLabel) -> (r: Result<u32, DescriptorError>)
        ensures
            r == resolved(self@, label),
    {
        match self.get(label) {
            Some(base) => Ok(base),
            None => Err(DescriptorError::MissingBase(label)),
        }
    }

    /// Whether the base of `label` is there and lies in `window`.
    fn check_window(&self, label: PeriphLabel, window: (u32, u32)) -> (r: Result<
        (),
        DescriptorError,
    >)
        ensures
            r == placed(self@, label, window),
    {
        match self.get(label) {
            Some(base) => if base >= window.0 && base < window.1 {
                Ok(())
            } else {
                Err(DescriptorError::SelectorAddrMismatch)
            },
            None => Err(DescriptorError::MissingBase(label)),
        }
    }

    /// Every GPIO and RCU base the table carries lies in the window of the register models.
    pub open spec fn fits(bases: Map<PeriphLabel, u32>, gpio: GpioPath) -> bool {
        &&& forall|label: PeriphLabel|
            (label is Gpioa || label is Gpiob || label is Gpioc || label is Gpiod || label is Gpioe
                || label is Gpiof) && #[trigger] bases.contains_key(label) ==> ranges::inside(
                bases[label],
                ranges::gpio_window(gpio),
            )
        &&& bases.contains_key(PeriphLabel::Rcu) ==> ranges::inside(
            bases[PeriphLabel::Rcu],
            ranges::RCU,
        )
    }

    /// Check the bases that are there against the windows of the register models. The RCU base is
    /// the same under both clock models.
    pub fn check_ranges(&self, gpio: GpioPath, clock: ClockPath) -> (r: Result<
        (),
        DescriptorError,
    >)
        ensures
            r == (if Self::fits(self@, gpio) {
                Ok::<(), DescriptorError>(())
            } else {
                Err(DescriptorError::SelectorAddrMismatch)
            }),
    {
        let _ = clock;
        let (lo, hi) = ranges::gpio_for(gpio);
        let ports: [PeriphLabel; 6] = [
            PeriphLabel::Gpioa,
            PeriphLabel::Gpiob,
            PeriphLabel::Gpioc,
            PeriphLabel::Gpiod,
            PeriphLabel::Gpioe,
            PeriphLabel::Gpiof,
        ];
        let mut i: usize = 0;
        while i < 6
            invariant
                i <= 6,
                (lo, hi) == ranges::gpio_window(gpio),
                ports@ == seq![
                    PeriphLabel::Gpioa,
                    PeriphLabel::Gpiob,
                    PeriphLabel::Gpioc,
                    PeriphLabel::Gpiod,
                    PeriphLabel::Gpioe,
                    PeriphLabel::Gpiof,
                ],
                forall|j: int|
                    0 <= j < i ==> self@.contains_key(#[trigger] ports@[j]) ==> ranges::inside(
                        self@[ports@[j]],
                        ranges::gpio_window(gpio),
                    ),
            decreases 6 - i,
        {
            if let Some(base) = self.get(ports[i]) {
                if base < lo || base >= hi {
                    assert(self@.contains_key(ports@[i as int]));
                    return Err(DescriptorError::SelectorAddrMismatch);
                }
            }
            i = i + 1;
        }
        proof {
            assert(ports@[0] is Gpioa && ports@[1] is Gpiob && ports@[2] is Gpioc && ports@[3] is Gpiod
                && ports@[4] is Gpioe && ports@[5] is Gpiof);
        }
        if let Some(base) = self.get(PeriphLabel::Rcu) {
            let (lo, hi) = ranges::RCU;
            if base < lo || base >= hi {
                return Err(DescriptorError::SelectorAddrMismatch);
            }
        }
        Ok(())
    }

    /// Check the base of a USART: USART0 is on APB2, the others on APB1.
    pub fn check_usart_base(&self, usart: PeriphLabel) -> (r: Result<(), DescriptorError>)
        ensures
            r == (match usart {
                PeriphLabel::Usart0 => placed(self@, usart, ranges::USART_APB2),
                PeriphLabel::Usart1 => placed(self@, usart, ranges::USART_APB1),
                PeriphLabel::Usart2 => placed(self@, usart, ranges::USART_APB1),
                _ => Err(DescriptorError::UnknownSelector),
            }),
    {
        match usart {
            PeriphLabel::Usart0 => self.check_window(usart, ranges::USART_APB2),
            PeriphLabel::Usart1 | PeriphLabel::Usart2 => self.check_window(
                usart,
                ranges::USART_APB1,
            ),
            _ => Err(DescriptorError::UnknownSelector),
        }
    }

    /// Check the base of an I2C block.
    pub fn check_i2c_base(&self, i2c: PeriphLabel) -> (r: Result<(), DescriptorError>)
        ensures
            r == (if i2c is I2c0 || i2c is I2c1 {
                placed(self@, i2c, ranges::I2C_APB1)
            } else {
                Err(DescriptorError::UnknownSelector)
            }),
    {
        if !i2c.is_i2c() {
            return Err(DescriptorError::UnknownSelector);
        }
        self.check_window(i2c, ranges::I2C_APB1)
    }

    /// Check the base of a SPI block: SPI0 is on APB2 on the F10x and on APB1 on the F1x0; SPI1 is
    /// on APB1.
    pub fn check_spi_base(&self, spi: PeriphLabel) -> (r: Result<(), DescriptorError>)
        ensures
            r == (match spi {
                PeriphLabel::Spi0 => if placed(self@, spi, ranges::SPI0_APB2) is Ok {
                    Ok::<(), DescriptorError>(())
                } else {
                    placed(self@, spi, ranges::SPI_APB1)
                },
                PeriphLabel::Spi1 => placed(self@, spi, ranges::SPI_APB1),
                _ => Err(DescriptorError::UnknownSelector),
            }),
    {
        match spi {
            PeriphLabel::Spi0 => {
                match self.check_window(spi, ranges::SPI0_APB2) {
                    Ok(()) => Ok(()),
                    Err(_) => self.check_window(spi, ranges::SPI_APB1),
                }
            },
            PeriphLabel::Spi1 => self.check_window(spi, ranges::SPI_APB1),
            _ => Err(DescriptorError::UnknownSelector),
        }
    }

    /// Check the base of an ADC.
    pub fn check_adc_base(&self, adc: PeriphLabel) -> (r: Result<(), DescriptorError>)
        ensures
            r == (if adc is Adc0 || adc is Adc1 {
                placed(self@, adc, ranges::ADC_APB2)
            } else {
                Err(DescriptorError::UnknownSelector)
            }),
    {
        if !adc.is_adc() {
            return Err(DescriptorError::UnknownSelector);
        }
        self.check_window(adc, ranges::ADC_APB2)
    }

    /// Check the base of an advanced timer.
    pub fn check_timer_base(&self, timer: PeriphLabel) -> (r: Result<(), DescriptorError>)
        ensures
            r == (if timer is Timer0 || timer is Timer7 {
                placed(self@, timer, ranges::ADV_TIMER_APB2)
            } else {
                Err(DescriptorError::UnknownSelector)
            }),
    {
        if !timer.is_timer() {
            return Err(DescriptorError::UnknownSelector);
        }
        self.check_window(timer, ranges::ADV_TIMER_APB2)
    }

    /// Check the base of the free watchdog.
    pub fn check_fwdgt_base(&self, fwdgt: PeriphLabel) -> (r: Result<(), DescriptorError>)
        ensures
            r == (if fwdgt is Fwdgt {
                placed(self@, fwdgt, ranges::FWDGT_APB1)
            } else {
                Err(DescriptorError::UnknownSelector)
            }),
    {
        if !fwdgt.is_fwdgt() {
            return Err(DescriptorError::UnknownSelector);
        }
        self.check_window(fwdgt, ranges::FWDGT_APB1)
    }
}

/// A base is found where it was set and nowhere else: a label that has one is resolved to it, one
/// that has none is named in the error, and setting one base leaves the others.
pub proof fn law_lookup(
    bases: Map<PeriphLabel, u32>,
    set: PeriphLabel,
    base: u32,
    label: PeriphLabel,
)
    ensures
        ({
            let more = bases.insert(set, base);
            &&& lookup(more, set) == Some(base)
            &&& resolved(more, set) == Ok::<u32, DescriptorError>(base)
            &&& label != set ==> lookup(more, label) == lookup(bases, label)
            &&& label != set ==> resolved(more, label) == resolved(bases, label)
            &&& lookup(Map::empty(), label) is None
            &&& resolved(Map::empty(), label) == Err::<u32, _>(DescriptorError::MissingBase(label))
            &&& resolved(bases, label) is Ok <==> lookup(bases, label) is Some
            &&& resolved(bases, label) matches Ok(b) ==> lookup(bases, label) == Some(b)
        }),
{
}

/// The verdict on a base: missing where there is none, a mismatch where it lies outside its window,
/// whose end is not part of it.
pub proof fn law_placed(bases: Map<PeriphLabel, u32>, label: PeriphLabel, window: (u32, u32))
    ensures
        placed(bases, label, window) is Ok <==> (lookup(bases, label) matches Some(b) && window.0 <= b
            < window.1),
        placed(bases, label, window) == Err::<(), _>(DescriptorError::MissingBase(label)) <==> lookup(
            bases,
            label,
        ) is None,
        placed(bases, label, window) == Err::<(), _>(DescriptorError::SelectorAddrMismatch) <==> (
        lookup(bases, label) matches Some(b) && !(window.0 <= b < window.1)),
{
}

/// The labels that drivers resolve come first, in the order of their places.
pub proof fn law_driver_labels(label: PeriphLabel)
    ensures
        label.place() < PeriphLabel::COUNT <==> !(label is Timer1 || label is Adc2),
        SLOTS == PeriphLabel::COUNT + 2,
{
}

} // verus!
