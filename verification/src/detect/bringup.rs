//! The console of a part that is not set up yet.
//!
//! Before an application has configured anything, a console on USART0 at PA9 and PA10 can be had
//! from the reset clock. That these pins are free is a convention, not a fact about the part.

use vstd::prelude::*;

use crate::addr::{self, PeriphLabel};
use crate::bits;
use crate::chip::Chip;
use crate::clock::{self, ClockConfig, ClockSource};
use crate::config::{Oversampling, UsartConfig, UsartFrame};
use crate::descriptor::GpioPath;
use crate::detect::Family;
use crate::error::DescriptorError;
use crate::gpio::laws as gpio_laws;
use crate::gpio::registers;
use crate::gpio::{self, InputPull, PinRole};
use crate::reg::{self, Bus, Step};

verus! {

/// Where USART0 is, on both families.
pub const USART0_BASE: u32 = 0x4001_3800;

pub const CONSOLE_BAUD: u32 = 115_200;

/// PA9.
pub const CONSOLE_TX: u8 = 9;

/// PA10.
pub const CONSOLE_RX: u8 = 10;

/// The pins are a convention.
pub const CONSOLE_PINS_ASSUMED: bool = true;

/// The reset clock: the internal 8 MHz oscillator, undivided.
pub open spec fn reset_clock() -> ClockConfig {
    ClockConfig {
        sysclk_hz: 8_000_000,
        wait_states: 0,
        source: ClockSource::Irc8m,
        pll_mul: 2,
        ahb_psc: 1,
        apb1_psc: 1,
        apb2_psc: 1,
    }
}

/// The reset clock.
pub fn fallback_clock() -> (r: ClockConfig)
    ensures
        r == reset_clock(),
        forall|path| #[trigger] r.verdict(path) is Ok,
{
    ClockConfig {
        sysclk_hz: 8_000_000,
        wait_states: 0,
        source: ClockSource::Irc8m,
        pll_mul: 2,
        ahb_psc: 1,
        apb1_psc: 1,
        apb2_psc: 1,
    }
}

/// Clocking GPIOA and USART0.
pub open spec fn clocks_script(chip: Chip, rcu: u32) -> Seq<Step> {
    Seq::empty().push(clock::gpio_bit(chip.desc().clock, PeriphLabel::Gpioa)->Ok_0.step(rcu)).push(
        clock::usart_bit(chip.desc().clock, PeriphLabel::Usart0)->Ok_0.step(rcu),
    )
}

/// Clocking GPIOA and USART0, and handing the console pins to USART0.
pub open spec fn console_script(chip: Chip, rcu: u32, gpioa: u32) -> Seq<Step> {
    clocks_script(chip, rcu) + gpio::af_script(gpioa, chip.desc().gpio, CONSOLE_TX, PinRole::Tx)
        + gpio::af_script(gpioa, chip.desc().gpio, CONSOLE_RX, PinRole::Rx)
}

/// The console: USART0 at the conventional pins, 115200 baud, eight data bits, no parity, one stop
/// bit.
pub open spec fn console_config(cfg: UsartConfig) -> bool {
    &&& cfg.usart is Usart0
    &&& cfg.tx == CONSOLE_TX
    &&& cfg.rx == CONSOLE_RX
    &&& cfg.baud == CONSOLE_BAUD
    &&& cfg.frame.word_len is Eight
    &&& cfg.frame.parity == crate::config::Parity::Off
    &&& cfg.frame.stop is One
    &&& cfg.oversampling is By16
}

/// A chip as another, with USART0.
pub open spec fn extends(c: Chip, chip: Chip) -> bool {
    &&& c.desc().addrs@ == chip.desc().addrs@.insert(PeriphLabel::Usart0, USART0_BASE)
    &&& c.desc() == (crate::descriptor::McuDescriptor { addrs: c.desc().addrs, ..chip.desc() })
}

/// A driver of a USART. What a driver does with the registers is its own affair.
pub trait SerialDriver<B: Bus>: Sized {
    /// Bring up the USART that `cfg` names, on a part that runs at `clock`.
    fn bring_up(bus: &mut B, chip: &Chip, clock: &ClockConfig, cfg: &UsartConfig) -> Result<
        Self,
        DescriptorError,
    >;
}

/// Bring up the console: clock GPIOA and USART0, hand the pins to USART0, and let the driver bring
/// it up from the reset clock. The driver is given the chip with USART0 added; the chip given here
/// is left as it is. What the driver returns is returned.
pub fn apply_defaults<B: Bus, U: SerialDriver<B>>(bus: &mut B, chip: &Chip, family: Family) -> (r:
    Result<U, DescriptorError>)
    ensures
        ({
            let rcu = addr::resolved(chip.desc().addrs@, PeriphLabel::Rcu);
            let gpioa = addr::resolved(chip.desc().addrs@, PeriphLabel::Gpioa);
            match (rcu, gpioa) {
                (Err(e), _) => *final(bus) == *old(bus) && r == Err::<U, _>(e),
                (Ok(rcu), Err(e)) => {
                    &&& reg::ran(*old(bus), *final(bus), clocks_script(*chip, rcu))
                    &&& r == Err::<U, _>(e)
                },
                (Ok(rcu), Ok(gpioa)) => exists|m: &mut B, c: Chip, cfg: UsartConfig|
                    {
                        &&& reg::ran(*old(bus), *m, console_script(*chip, rcu, gpioa))
                        &&& extends(c, *chip)
                        &&& console_config(cfg)
                        &&& #[trigger] call_ensures(U::bring_up, (m, &c, &reset_clock(), &cfg), r)
                        &&& *final(m) == *final(bus)
                    },
            }
        }),
{
    let _ = family;
    let (console_chip, cfg): (Chip, UsartConfig) = match prepare_console(bus, chip) {
        Ok(console) => console,
        Err(e) => {
            return Err(e);
        },
    };
    let clock: ClockConfig = fallback_clock();
    U::bring_up(bus, &console_chip, &clock, &cfg)
}

/// Make the console's clocks and pins ready. What is returned is what a USART driver is brought up
/// with, together with [`fallback_clock`]: the chip, to which USART0 is added, and the console's
/// configuration. The chip given is left as it is.
pub fn prepare_console<B: Bus>(bus: &mut B, chip: &Chip) -> (r: Result<
    (Chip, UsartConfig),
    DescriptorError,
>)
    ensures
        ({
            let rcu = addr::resolved(chip.desc().addrs@, PeriphLabel::Rcu);
            let gpioa = addr::resolved(chip.desc().addrs@, PeriphLabel::Gpioa);
            match (rcu, gpioa) {
                (Err(e), _) => *final(bus) == *old(bus) && r == Err::<(Chip, UsartConfig), _>(e),
                (Ok(rcu), Err(e)) => {
                    &&& reg::ran(*old(bus), *final(bus), clocks_script(*chip, rcu))
                    &&& r == Err::<(Chip, UsartConfig), _>(e)
                },
                (Ok(rcu), Ok(gpioa)) => {
                    &&& reg::ran(*old(bus), *final(bus), console_script(*chip, rcu, gpioa))
                    &&& r matches Ok((c, cfg))
                    &&& extends(c, *chip)
                    &&& console_config(cfg)
                },
            }
        }),
{
    let path = chip.clock();
    let rcu: u32 = match chip.rcu_base() {
        Ok(rcu) => rcu,
        Err(e) => {
            return Err(e);
        },
    };
    if fallback_clock().validate_for(path).is_err() {
        return Err(DescriptorError::SelectorAddrMismatch);
    }
    let ghost b0 = *bus;
    let ported: Result<(), DescriptorError> = clock::enable_gpio_port(
        bus,
        rcu,
        path,
        PeriphLabel::Gpioa,
    );
    let ghost b1 = *bus;
    if let Err(e) = ported {
        return Err(e);
    }
    let clocked: Result<(), DescriptorError> = clock::enable_usart(
        bus,
        rcu,
        path,
        PeriphLabel::Usart0,
    );
    let ghost b2 = *bus;
    if let Err(e) = clocked {
        return Err(e);
    }
    proof {
        let g = clock::gpio_bit(chip.desc().clock, PeriphLabel::Gpioa)->Ok_0.step(rcu);
        let u = clock::usart_bit(chip.desc().clock, PeriphLabel::Usart0)->Ok_0.step(rcu);
        reg::ran_append(b0, b1, b2, seq![g], seq![u]);
        assert(seq![g] + seq![u] =~= clocks_script(*chip, rcu));
    }
    let gpioa: u32 = match chip.base(PeriphLabel::Gpioa) {
        Ok(gpioa) => gpioa,
        Err(e) => {
            return Err(e);
        },
    };
    gpio::configure_af(bus, gpioa, chip.gpio(), CONSOLE_TX, PinRole::Tx);
    let ghost b3 = *bus;
    gpio::configure_af(bus, gpioa, chip.gpio(), CONSOLE_RX, PinRole::Rx);
    proof {
        let tx = gpio::af_script(gpioa, chip.desc().gpio, CONSOLE_TX, PinRole::Tx);
        let rx = gpio::af_script(gpioa, chip.desc().gpio, CONSOLE_RX, PinRole::Rx);
        reg::ran_append(b0, b2, b3, clocks_script(*chip, rcu), tx);
        reg::ran_append(b0, b3, *bus, clocks_script(*chip, rcu) + tx, rx);
    }
    let cfg = UsartConfig {
        usart: PeriphLabel::Usart0,
        tx: CONSOLE_TX,
        rx: CONSOLE_RX,
        baud: CONSOLE_BAUD,
        frame: UsartFrame::eight_n_one(),
        oversampling: Oversampling::By16,
    };
    Ok((with_usart0(chip), cfg))
}

fn with_usart0(chip: &Chip) -> (r: Chip)
    ensures
        extends(r, *chip),
{
    let mut desc = *chip.descriptor();
    desc.addrs.set(PeriphLabel::Usart0, USART0_BASE);
    Chip::from_descriptor(desc)
}

/// The console's clocks are those of GPIOA and USART0, and its pins are PA9, which USART0 drives, and
/// PA10, which it listens to.
pub proof fn law_console(chip: Chip, rcu: u32, gpioa: u32, w: u32)
    requires
        0x4002_1000 <= rcu < 0x4002_13C0,
        0x4001_0800 <= gpioa < 0x4001_2000 || 0x4800_0000 <= gpioa < 0x4800_2000,
        chip.desc().gpio is ApbCrlCrh <==> chip.desc().clock is F10xRcc,
    ensures
        ({
            let after = |x: u32| reg::word_after(console_script(chip, rcu, gpioa), x, w);
            if chip.desc().gpio is ApbCrlCrh {
                &&& after(reg::at(rcu, 0x18)) == w | 4 | 0x4000
                &&& after(reg::at(gpioa, 0x04)) & 0xF0 == 0xB0
                &&& after(reg::at(gpioa, 0x04)) & 0xF00 == 0x400
            } else {
                &&& after(reg::at(rcu, 0x14)) == w | 0x2_0000
                &&& after(reg::at(rcu, 0x18)) == w | 0x4000
                &&& after(reg::at(gpioa, 0x00)) & 0xC_0000 == 0x8_0000
                &&& after(reg::at(gpioa, 0x00)) & 0x30_0000 == 0x20_0000
                &&& after(reg::at(gpioa, 0x24)) & 0xF0 == 0x10
                &&& after(reg::at(gpioa, 0x24)) & 0xF00 == 0x100
            }
        }),
{
    let path = chip.desc().gpio;
    bits::masks();
    clocked(chip, rcu, w, reg::at(rcu, 0x14));
    clocked(chip, rcu, w, reg::at(rcu, 0x18));
    pins_leave(chip, rcu, gpioa, w, reg::at(rcu, 0x14));
    pins_leave(chip, rcu, gpioa, w, reg::at(rcu, 0x18));
    let clocks = clocks_script(chip, rcu);
    let tx = gpio::af_script(gpioa, path, 9, PinRole::Tx);
    let rx = gpio::af_script(gpioa, path, 10, PinRole::Rx);
    let offset: u32 = if path is ApbCrlCrh {
        0x04
    } else {
        0x24
    };
    pin_roles(path, gpioa, offset, reg::word_after(clocks, reg::at(gpioa, offset), w));
    if path is AhbCtlAfsel {
        pin_roles(path, gpioa, 0x00, reg::word_after(clocks, reg::at(gpioa, 0x00), w));
    }
    reg::word_after_append(clocks + tx, rx, reg::at(gpioa, offset), w);
    reg::word_after_append(clocks, tx, reg::at(gpioa, offset), w);
    reg::word_after_append(clocks + tx, rx, reg::at(gpioa, 0x00), w);
    reg::word_after_append(clocks, tx, reg::at(gpioa, 0x00), w);
}

proof fn clocked(chip: Chip, rcu: u32, w: u32, x: u32)
    requires
        0x4002_1000 <= rcu < 0x4002_13C0,
        x == reg::at(rcu, 0x14) || x == reg::at(rcu, 0x18),
    ensures
        reg::word_after(clocks_script(chip, rcu), x, w) == (if chip.desc().clock is F10xRcc {
            if x == reg::at(rcu, 0x18) {
                w | 4 | 0x4000
            } else {
                w
            }
        } else {
            if x == reg::at(rcu, 0x18) {
                w | 0x4000
            } else {
                w | 0x2_0000
            }
        }),
{
    broadcast use reg::group_after;

    bits::masks();
    bits::merge_fields(w, 4, 0, 0);
    bits::merge_fields(w, 0x4000, 0, 0);
    bits::merge_fields(w, 0x2_0000, 0, 0);
    bits::merge_fields(w | 4, 0x4000, 0, 0);
}

proof fn pins_leave(chip: Chip, rcu: u32, gpioa: u32, w: u32, x: u32)
    requires
        0x4001_0800 <= gpioa < 0x4001_2000 || 0x4800_0000 <= gpioa < 0x4800_2000,
        0x4002_1000 <= x < 0x4002_1400,
    ensures
        reg::word_after(console_script(chip, rcu, gpioa), x, w) == reg::word_after(
            clocks_script(chip, rcu),
            x,
            w,
        ),
{
    let path = chip.desc().gpio;
    let clocks = clocks_script(chip, rcu);
    let tx = gpio::af_script(gpioa, path, 9, PinRole::Tx);
    let rx = gpio::af_script(gpioa, path, 10, PinRole::Rx);
    let u = reg::word_after(clocks, x, w);
    reg::word_after_append(clocks + tx, rx, x, w);
    reg::word_after_append(clocks, tx, x, w);
    if path is ApbCrlCrh {
        registers::law_f10x_role(gpioa, 9, PinRole::Tx, u, x);
        registers::law_f10x_role(gpioa, 10, PinRole::Rx, u, x);
    } else {
        registers::law_f1x0_role(gpioa, 9, PinRole::Tx, u, x);
        registers::law_f1x0_role(gpioa, 10, PinRole::Rx, u, x);
    }
}

proof fn pin_roles(path: GpioPath, gpioa: u32, offset: u32, w: u32)
    requires
        path is ApbCrlCrh && offset == 0x04 || path is AhbCtlAfsel && (offset == 0x00 || offset
            == 0x24),
    ensures
        ({
            let x = reg::at(gpioa, offset);
            let tx = gpio::af_script(gpioa, path, 9, PinRole::Tx);
            let rx = gpio::af_script(gpioa, path, 10, PinRole::Rx);
            let after = reg::word_after(rx, x, reg::word_after(tx, x, w));
            &&& path is ApbCrlCrh ==> after & 0xF0 == 0xB0 && after & 0xF00 == 0x400
            &&& path is AhbCtlAfsel && offset == 0x00 ==> after & 0xC_0000 == 0x8_0000 && after
                & 0x30_0000 == 0x20_0000
            &&& path is AhbCtlAfsel && offset == 0x24 ==> after & 0xF0 == 0x10 && after & 0xF00
                == 0x100
        }),
{
    bits::masks();
    registers::law_pin_number(9);
    registers::law_pin_number(10);
    let x = reg::at(gpioa, offset);
    let u = reg::word_after(gpio::af_script(gpioa, path, 9, PinRole::Tx), x, w);
    gpio_laws::law_pin_takes_its_role(gpioa, 9, PinRole::Tx, w);
    gpio_laws::law_pin_takes_its_role(gpioa, 10, PinRole::Rx, u);
    let nine: u32 = if offset == 0x00 {
        3u32 << 18u32
    } else {
        15u32 << 4u32
    };
    gpio_laws::law_other_pins_are_left(
        gpioa,
        path,
        10,
        PinRole::Rx,
        InputPull::Floating,
        9,
        offset,
        nine,
        u,
    );
}

/// The console is USART0 at 0x40013800, on pins 9 and 10 of port A, at 115200 baud, from the internal
/// oscillator at 8 MHz undivided.
pub proof fn law_console_settings(chip: Chip, c: Chip, cfg: UsartConfig, label: PeriphLabel)
    requires
        extends(c, chip),
        console_config(cfg),
    ensures
        addr::lookup(c.desc().addrs@, PeriphLabel::Usart0) == Some(0x4001_3800u32),
        label != PeriphLabel::Usart0 ==> addr::lookup(c.desc().addrs@, label) == addr::lookup(
            chip.desc().addrs@,
            label,
        ),
        c.desc().gpio == chip.desc().gpio,
        c.desc().clock == chip.desc().clock,
        c.desc().adc == chip.desc().adc,
        c.desc().irq == chip.desc().irq,
        c.desc().flash_page == chip.desc().flash_page,
        c.desc().flash_kib == chip.desc().flash_kib,
        c.desc().adv_timers == chip.desc().adv_timers,
        c.desc().adc_count == chip.desc().adc_count,
        cfg.usart is Usart0,
        cfg.tx == 9,
        cfg.rx == 10,
        cfg.baud == 115_200,
        reset_clock().sysclk_hz == 8_000_000,
        reset_clock().source is Irc8m,
        reset_clock().wait_states == 0,
        reset_clock().ahb_psc == 1,
        reset_clock().apb1_psc == 1,
        reset_clock().apb2_psc == 1,
{
}

} // verus!
