//! The address windows each register model expects its peripherals in: `(first, past the last)`.

use vstd::prelude::*;

use crate::descriptor::GpioPath;

verus! {

/// The F10x GPIO ports, on APB2.
pub const GPIO_F10X_APB: (u32, u32) = (0x4001_0800, 0x4001_2000);

/// The F1x0 GPIO ports, on AHB.
pub const GPIO_F1X0_AHB: (u32, u32) = (0x4800_0000, 0x4800_2000);

/// The reset and clock unit, one base for both families.
pub const RCU: (u32, u32) = (0x4002_1000, 0x4002_1400);

/// USART1 and USART2, on APB1.
pub const USART_APB1: (u32, u32) = (0x4000_4400, 0x4000_5000);

/// USART0, on APB2.
pub const USART_APB2: (u32, u32) = (0x4001_3800, 0x4001_3C00);

/// The I2C blocks, on APB1.
pub const I2C_APB1: (u32, u32) = (0x4000_5400, 0x4000_5C00);

/// The F10x SPI0, on APB2.
pub const SPI0_APB2: (u32, u32) = (0x4001_3000, 0x4001_3400);

/// SPI1, and the single SPI of the F1x0, on APB1.
pub const SPI_APB1: (u32, u32) = (0x4000_3800, 0x4000_4000);

/// ADC0 and ADC1, on APB2.
pub const ADC_APB2: (u32, u32) = (0x4001_2400, 0x4001_2C00);

/// The advanced timers, on APB2.
pub const ADV_TIMER_APB2: (u32, u32) = (0x4001_2C00, 0x4001_3800);

/// The free watchdog, on APB1.
pub const FWDGT_APB1: (u32, u32) = (0x4000_3000, 0x4000_3400);

/// `base` lies in `window`.
pub open spec fn inside(base: u32, window: (u32, u32)) -> bool {
    window.0 <= base < window.1
}

/// The window of the GPIO ports under a register model.
pub open spec fn gpio_window(gpio: GpioPath) -> (u32, u32) {
    match gpio {
        GpioPath::ApbCrlCrh => GPIO_F10X_APB,
        GpioPath::AhbCtlAfsel => GPIO_F1X0_AHB,
    }
}

/// The window of the GPIO ports under a register model.
pub fn gpio_for(gpio: GpioPath) -> (r: (u32, u32))
    ensures
        r == gpio_window(gpio),
{
    match gpio {
        GpioPath::ApbCrlCrh => GPIO_F10X_APB,
        GpioPath::AhbCtlAfsel => GPIO_F1X0_AHB,
    }
}

/// The windows, as bounds on a base.
pub proof fn law_windows(base: u32, gpio: GpioPath)
    ensures
        inside(base, gpio_window(gpio)) <==> if gpio is ApbCrlCrh {
            0x4001_0800 <= base < 0x4001_2000
        } else {
            0x4800_0000 <= base < 0x4800_2000
        },
        inside(base, RCU) <==> 0x4002_1000 <= base < 0x4002_1400,
        inside(base, USART_APB1) <==> 0x4000_4400 <= base < 0x4000_5000,
        inside(base, USART_APB2) <==> 0x4001_3800 <= base < 0x4001_3C00,
        inside(base, I2C_APB1) <==> 0x4000_5400 <= base < 0x4000_5C00,
        inside(base, SPI0_APB2) <==> 0x4001_3000 <= base < 0x4001_3400,
        inside(base, SPI_APB1) <==> 0x4000_3800 <= base < 0x4000_4000,
        inside(base, ADC_APB2) <==> 0x4001_2400 <= base < 0x4001_2C00,
        inside(base, ADV_TIMER_APB2) <==> 0x4001_2C00 <= base < 0x4001_3800,
        inside(base, FWDGT_APB1) <==> 0x4000_3000 <= base < 0x4000_3400,
{
}

} // verus!
