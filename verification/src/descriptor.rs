//! The chip description: which register model each peripheral group follows, where the
//! peripherals are, and how many of them there are.

use vstd::prelude::*;

use crate::addr::AddrTable;

verus! {

/// The most USARTs a part carries.
pub const MAX_USARTS: usize = 4;

/// The most GPIO ports a part carries.
pub const MAX_GPIO_PORTS: usize = 6;

/// The most I2C blocks a part carries.
pub const MAX_I2CS: usize = 2;

/// The most SPI blocks a part carries.
pub const MAX_SPIS: usize = 2;

/// The longest regular ADC sequence a configuration holds.
pub const MAX_ADC_CHANNELS: usize = 8;

/// The most ADCs a configuration addresses.
pub const MAX_ADCS: usize = 2;

/// The most advanced timers a part carries.
pub const MAX_TIMERS: usize = 2;

/// The complementary PWM pairs of an advanced timer.
pub const MAX_PWM_CHANNELS: usize = 3;

/// The longest injected ADC group.
pub const MAX_INJECTED_CHANNELS: usize = 4;

/// The GPIO register model.
#[derive(Debug, Clone, Copy, PartialEq, Eq, Structural)]
pub enum GpioPath {
    /// F10x: ports on APB2, four configuration bits per pin in `CTL0`/`CTL1`.
    ApbCrlCrh,
    /// F1x0: ports on AHB, `CTL`/`OMODE`/`OSPD`/`PUD` and a per-pin function mux in `AFSEL`.
    AhbCtlAfsel,
}

/// The clock-controller register model.
#[derive(Debug, Clone, Copy, PartialEq, Eq, Structural)]
pub enum ClockPath {
    /// F10x.
    F10xRcc,
    /// F1x0.
    F1x0Rcu,
}

/// How many ADCs the family's register model foresees.
#[derive(Debug, Clone, Copy, PartialEq, Eq, Structural)]
pub enum AdcPath {
    /// One ADC.
    Single,
    /// Two ADCs that can work together.
    Dual,
}

/// The width of a timer's counter.
#[derive(Debug, Clone, Copy, PartialEq, Eq, Structural)]
pub enum CounterWidth {
    /// A 16-bit counter.
    Sixteen,
    /// A 32-bit counter.
    ThirtyTwo,
}

impl CounterWidth {
    /// The highest count: `2^16 - 1` or `2^32 - 1`.
    pub fn max_count(self) -> (r: u32)
        ensures
            r == (match self {
                CounterWidth::Sixteen => 0xFFFFu32,
                CounterWidth::ThirtyTwo => 0xFFFF_FFFFu32,
            }),
    {
        match self {
            CounterWidth::Sixteen => 0xFFFF,
            CounterWidth::ThirtyTwo => u32::MAX,
        }
    }
}

/// The interrupt-vector layout.
#[derive(Debug, Clone, Copy, PartialEq, Eq, Structural)]
pub enum IrqLayout {
    /// F1x0: several interrupts share a line.
    F1x0Grouped,
    /// F10x: one line each.
    F10xSeparate,
}

/// The flash page size.
#[derive(Debug, Clone, Copy, PartialEq, Eq, Structural)]
pub enum PageSize {
    /// 1 KiB pages.
    K1,
    /// 2 KiB pages.
    K2,
}

impl PageSize {
    /// The page size in bytes.
    pub open spec fn size(self) -> u32 {
        match self {
            PageSize::K1 => 1024,
            PageSize::K2 => 2048,
        }
    }

    /// The page size in bytes.
    pub fn bytes(self) -> (r: u32)
        ensures
            r == self.size(),
    {
        match self {
            PageSize::K1 => 1024,
            PageSize::K2 => 2048,
        }
    }
}

/// Everything the HAL knows of the part it runs on.
#[derive(Debug, Clone, Copy, PartialEq, Eq)]
pub struct McuDescriptor {
    /// The GPIO register model.
    pub gpio: GpioPath,
    /// The clock-controller register model.
    pub clock: ClockPath,
    /// The ADC model.
    pub adc: AdcPath,
    /// The interrupt-vector layout.
    pub irq: IrqLayout,
    /// Where the peripherals are.
    pub addrs: AddrTable,
    /// The flash page size.
    pub flash_page: PageSize,
    /// The flash size in KiB.
    pub flash_kib: u16,
    /// How many advanced timers were measured.
    pub adv_timers: u8,
    /// How many ADCs were measured.
    pub adc_count: u8,
}

/// A page is one or two KiB.
pub proof fn law_page_sizes(page: PageSize)
    ensures
        page.size() == 1024 * (if page is K2 {
            2int
        } else {
            1
        }),
{
}

} // verus!
