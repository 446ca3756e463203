//! The chip context the drivers are built from.

use vstd::prelude::*;

use crate::adc::{Adc, AdcCapability};
use crate::addr::{self, ranges, PeriphLabel};
use crate::afio;
use crate::bits;
use crate::clock::{self, EnableBit};
use crate::descriptor::{AdcPath, ClockPath, GpioPath, IrqLayout, McuDescriptor, PageSize};
use crate::error::DescriptorError;
use crate::gpio::gpio_in::INPUT_GROUP_LINES;
use crate::gpio::registers;
use crate::gpio::{
    self, GpioOutput, GpioPort, InputGroup, PinRole, PortAPins, PortBPins, PortCPins, PortDPins,
    PortFPins, PortPins,
};
use crate::reg::{self, Bus, Step};

verus! {

/// A detected chip: its description, and the getters the drivers resolve themselves through.
#[derive(Debug, Clone, Copy, PartialEq, Eq)]
pub struct Chip {
    desc: McuDescriptor,
}

impl Chip {
    /// The description.
    pub closed spec fn desc(self) -> McuDescriptor {
        self.desc
    }

    /// The chip `desc` describes.
    pub fn from_descriptor(desc: McuDescriptor) -> (r: Self)
        ensures
            r.desc() == desc,
    {
        Self { desc }
    }

    /// The description.
    pub fn descriptor(&self) -> (r: &McuDescriptor)
        ensures
            *r == self.desc(),
    {
        &self.desc
    }

    /// The base of a peripheral.
    pub fn base(&self, label: PeriphLabel) -> (r: Result<u32, DescriptorError>)
        ensures
            r == addr::resolved(self.desc().addrs@, label),
    {
        self.desc.addrs.resolve(label)
    }

    /// The GPIO register model.
    pub fn gpio(&self) -> (r: GpioPath)
        ensures
            r == self.desc().gpio,
    {
        self.desc.gpio
    }

    /// The clock-controller register model.
    pub fn clock(&self) -> (r: ClockPath)
        ensures
            r == self.desc().clock,
    {
        self.desc.clock
    }

    /// The ADC model.
    pub fn adc_path(&self) -> (r: AdcPath)
        ensures
            r == self.desc().adc,
    {
        self.desc.adc
    }

    /// The interrupt-vector layout.
    pub fn irq(&self) -> (r: IrqLayout)
        ensures
            r == self.desc().irq,
    {
        self.desc.irq
    }

    /// The base of the reset and clock unit.
    pub fn rcu_base(&self) -> (r: Result<u32, DescriptorError>)
        ensures
            r == addr::resolved(self.desc().addrs@, PeriphLabel::Rcu),
    {
        self.base(PeriphLabel::Rcu)
    }

    /// The flash page size.
    pub fn flash_page(&self) -> (r: PageSize)
        ensures
            r == self.desc().flash_page,
    {
        self.desc.flash_page
    }

    /// The flash size in bytes.
    pub fn flash_size_bytes(&self) -> (r: u32)
        ensures
            r == self.desc().flash_kib * 1024,
    {
        self.desc.flash_kib as u32 * 1024
    }

    /// How many advanced timers were measured.
    pub fn adv_timers(&self) -> (r: u8)
        ensures
            r == self.desc().adv_timers,
    {
        self.desc.adv_timers
    }

    /// How many ADCs were measured.
    pub fn adc_count(&self) -> (r: u8)
        ensures
            r == self.desc().adc_count,
    {
        self.desc.adc_count
    }
}

// --- ports and pins ---------------------------------------------------------------------------

/// The port of a pin byte. There is no port E.
pub open spec fn port_of(pin: u8) -> Result<PeriphLabel, DescriptorError> {
    if pin / 16 == 0 {
        Ok(PeriphLabel::Gpioa)
    } else if pin / 16 == 1 {
        Ok(PeriphLabel::Gpiob)
    } else if pin / 16 == 2 {
        Ok(PeriphLabel::Gpioc)
    } else if pin / 16 == 3 {
        Ok(PeriphLabel::Gpiod)
    } else if pin / 16 == 5 {
        Ok(PeriphLabel::Gpiof)
    } else {
        Err(DescriptorError::MissingBase(PeriphLabel::Gpioa))
    }
}

/// The port of a pin byte.
pub fn gpio_port_label(pin: u8) -> (r: Result<PeriphLabel, DescriptorError>)
    ensures
        r == port_of(pin),
{
    match pin / 16 {
        0 => Ok(PeriphLabel::Gpioa),
        1 => Ok(PeriphLabel::Gpiob),
        2 => Ok(PeriphLabel::Gpioc),
        3 => Ok(PeriphLabel::Gpiod),
        5 => Ok(PeriphLabel::Gpiof),
        _ => Err(DescriptorError::MissingBase(PeriphLabel::Gpioa)),
    }
}

/// What is needed of a port: its base, the clock controller's base, and the bit that clocks it;
/// else the first of them that is missing.
pub open spec fn port_parts(desc: McuDescriptor, port: PeriphLabel) -> Result<
    (u32, u32, EnableBit),
    DescriptorError,
> {
    match addr::resolved(desc.addrs@, port) {
        Err(e) => Err(e),
        Ok(base) => match addr::resolved(desc.addrs@, PeriphLabel::Rcu) {
            Err(e) => Err(e),
            Ok(rcu) => match clock::gpio_bit(desc.clock, port) {
                Err(e) => Err(e),
                Ok(bit) => Ok((base, rcu, bit)),
            },
        },
    }
}

/// What is needed of the port of a pin.
pub open spec fn pin_parts(desc: McuDescriptor, pin: u8) -> Result<
    (u32, u32, EnableBit),
    DescriptorError,
> {
    match port_of(pin) {
        Err(e) => Err(e),
        Ok(port) => port_parts(desc, port),
    }
}

/// Handing a pin to the general timer: its port is clocked; on F10x the JTAG pins are freed and
/// the timer is remapped.
pub open spec fn general_script(
    path: GpioPath,
    base: u32,
    rcu: u32,
    bit: EnableBit,
    pin: u8,
) -> Seq<Step> {
    let clocked = seq![bit.step(rcu)];
    let remapped = match path {
        GpioPath::AhbCtlAfsel => clocked,
        GpioPath::ApbCrlCrh => clocked + afio::swj_script(rcu) + afio::remap_script(rcu),
    };
    remapped + gpio::af_script(base, path, pin, PinRole::GenTimerAfPushPull)
}

/// Handing a pin to the advanced timer: its port is clocked.
pub open spec fn advanced_script(
    path: GpioPath,
    base: u32,
    rcu: u32,
    bit: EnableBit,
    pin: u8,
) -> Seq<Step> {
    seq![bit.step(rcu)] + gpio::af_script(base, path, pin, PinRole::TimerAfPushPull)
}

/// The bases of the ports of three pins; else the first that is missing.
pub open spec fn line_bases(desc: McuDescriptor, pins: Seq<u8>, n: int) -> Result<
    Seq<u32>,
    DescriptorError,
>
    decreases n,
{
    if n <= 0 {
        Ok(Seq::empty())
    } else {
        match line_bases(desc, pins, n - 1) {
            Err(e) => Err(e),
            Ok(bases) => match port_of(pins[n - 1]) {
                Err(e) => Err(e),
                Ok(port) => match addr::resolved(desc.addrs@, port) {
                    Err(e) => Err(e),
                    Ok(base) => Ok(bases.push(base)),
                },
            },
        }
    }
}

impl Chip {
    /// Make a pin of a port a push-pull output and give a handle on it.
    pub fn output_pin<B: Bus>(&self, bus: &mut B, port: PeriphLabel, pin: u8) -> (r: Result<
        GpioOutput,
        DescriptorError,
    >)
        ensures
            match addr::resolved(self.desc().addrs@, port) {
                Err(e) => r == Err::<GpioOutput, _>(e) && *final(bus) == *old(bus),
                Ok(base) => {
                    &&& r matches Ok(out)
                    &&& out.port() == base
                    &&& out.model() == self.desc().gpio
                    &&& out.byte() == pin
                    &&& !out.driven_high()
                    &&& reg::ran(
                        *old(bus),
                        *final(bus),
                        gpio::output_script(base, self.desc().gpio, pin),
                    )
                },
            },
    {
        match self.base(port) {
            Err(e) => Err(e),
            Ok(base) => {
                gpio::configure_output(bus, base, self.desc.gpio, pin);
                Ok(GpioOutput::new(base, self.desc.gpio, pin))
            },
        }
    }

    /// What taking a port comes to: it is clocked, or something needed is missing and nothing is
    /// touched.
    pub open spec fn takes_port<B: Bus, P: PortPins>(
        self,
        b0: B,
        b1: B,
        port: PeriphLabel,
        r: Result<GpioPort<P>, DescriptorError>,
    ) -> bool {
        match port_parts(self.desc(), port) {
            Err(e) => r == Err::<GpioPort<P>, _>(e) && b1 == b0,
            Ok((base, rcu, bit)) => {
                &&& r matches Ok(p)
                &&& p.at() == base
                &&& p.model() == self.desc().gpio
                &&& reg::ran(b0, b1, seq![bit.step(rcu)])
            },
        }
    }

    fn gpio_port<B: Bus, P: PortPins>(&self, bus: &mut B, port: PeriphLabel) -> (r: Result<
        GpioPort<P>,
        DescriptorError,
    >)
        ensures
            self.takes_port(*old(bus), *final(bus), port, r),
    {
        let base: u32 = match self.base(port) {
            Ok(base) => base,
            Err(e) => {
                return Err(e);
            },
        };
        let rcu: u32 = match self.rcu_base() {
            Ok(rcu) => rcu,
            Err(e) => {
                return Err(e);
            },
        };
        match clock::enable_gpio_port(bus, rcu, self.desc.clock, port) {
            Ok(_) => Ok(GpioPort::new(base, self.desc.gpio)),
            Err(e) => Err(e),
        }
    }

    /// Port A, clocked.
    pub fn gpioa<B: Bus>(&self, bus: &mut B) -> (r: Result<GpioPort<PortAPins>, DescriptorError>)
        ensures
            self.takes_port(*old(bus), *final(bus), PeriphLabel::Gpioa, r),
    {
        self.gpio_port(bus, PeriphLabel::Gpioa)
    }

    /// Port B, clocked.
    pub fn gpiob<B: Bus>(&self, bus: &mut B) -> (r: Result<GpioPort<PortBPins>, DescriptorError>)
        ensures
            self.takes_port(*old(bus), *final(bus), PeriphLabel::Gpiob, r),
    {
        self.gpio_port(bus, PeriphLabel::Gpiob)
    }

    /// Port C, clocked.
    pub fn gpioc<B: Bus>(&self, bus: &mut B) -> (r: Result<GpioPort<PortCPins>, DescriptorError>)
        ensures
            self.takes_port(*old(bus), *final(bus), PeriphLabel::Gpioc, r),
    {
        self.gpio_port(bus, PeriphLabel::Gpioc)
    }

    /// Port D, clocked.
    pub fn gpiod<B: Bus>(&self, bus: &mut B) -> (r: Result<GpioPort<PortDPins>, DescriptorError>)
        ensures
            self.takes_port(*old(bus), *final(bus), PeriphLabel::Gpiod, r),
    {
        self.gpio_port(bus, PeriphLabel::Gpiod)
    }

    /// Port F, clocked.
    pub fn gpiof<B: Bus>(&self, bus: &mut B) -> (r: Result<GpioPort<PortFPins>, DescriptorError>)
        ensures
            self.takes_port(*old(bus), *final(bus), PeriphLabel::Gpiof, r),
    {
        self.gpio_port(bus, PeriphLabel::Gpiof)
    }

    /// Free the pins that JTAG holds after reset. F1x0 has nothing to free.
    pub fn free_jtag_pins<B: Bus>(&self, bus: &mut B) -> (r: Result<(), DescriptorError>)
        ensures
            match (self.desc().gpio, addr::resolved(self.desc().addrs@, PeriphLabel::Rcu)) {
                (GpioPath::AhbCtlAfsel, _) => r is Ok && *final(bus) == *old(bus),
                (GpioPath::ApbCrlCrh, Err(e)) => r == Err::<(), _>(e) && *final(bus) == *old(bus),
                (GpioPath::ApbCrlCrh, Ok(rcu)) => r is Ok && reg::ran(
                    *old(bus),
                    *final(bus),
                    afio::swj_script(rcu),
                ),
            },
    {
        match self.desc.gpio {
            GpioPath::ApbCrlCrh => match self.rcu_base() {
                Err(e) => Err(e),
                Ok(rcu) => {
                    afio::set_swj_sw_only(bus, rcu);
                    Ok(())
                },
            },
            GpioPath::AhbCtlAfsel => Ok(()),
        }
    }

    /// Whether an advanced timer is there.
    pub fn has_advanced_timer(&self, label: PeriphLabel) -> (r: bool)
        ensures
            r == ((label is Timer0 || label is Timer7) && addr::placed(
                self.desc().addrs@,
                label,
                ranges::ADV_TIMER_APB2,
            ) is Ok),
    {
        self.desc.addrs.check_timer_base(label).is_ok()
    }

    /// Whether an ADC is there.
    pub fn has_adc(&self, label: PeriphLabel) -> (r: bool)
        ensures
            r == ((label is Adc0 || label is Adc1) && addr::placed(
                self.desc().addrs@,
                label,
                ranges::ADC_APB2,
            ) is Ok),
    {
        self.desc.addrs.check_adc_base(label).is_ok()
    }

    /// The converters, as many as were counted: two or more make a pair.
    pub fn adc(&self) -> (r: Result<AdcCapability, DescriptorError>)
        ensures
            match addr::resolved(self.desc().addrs@, PeriphLabel::Adc0) {
                Err(e) => r == Err::<AdcCapability, _>(e),
                Ok(first) => if self.desc().adc_count >= 2 {
                    match addr::resolved(self.desc().addrs@, PeriphLabel::Adc1) {
                        Err(e) => r == Err::<AdcCapability, _>(e),
                        Ok(second) => {
                            &&& r matches Ok(AdcCapability::Dual { primary, secondary })
                            &&& primary.place() == first
                            &&& secondary.place() == second
                        },
                    }
                } else {
                    r matches Ok(AdcCapability::Single(adc)) && adc.place() == first
                },
            },
    {
        let primary = match self.base(PeriphLabel::Adc0) {
            Ok(base) => Adc::at(base),
            Err(e) => {
                return Err(e);
            },
        };
        if self.adc_count() >= 2 {
            match self.base(PeriphLabel::Adc1) {
                Ok(base) => Ok(AdcCapability::Dual { primary, secondary: Adc::at(base) }),
                Err(e) => Err(e),
            }
        } else {
            Ok(AdcCapability::Single(primary))
        }
    }

    fn line(&self, pin: u8) -> (r: Result<(u32, u8), DescriptorError>)
        ensures
            match port_of(pin) {
                Err(e) => r == Err::<(u32, u8), _>(e),
                Ok(port) => match addr::resolved(self.desc().addrs@, port) {
                    Err(e) => r == Err::<(u32, u8), _>(e),
                    Ok(base) => r == Ok::<_, DescriptorError>((base, (pin % 16) as u8)),
                },
            },
    {
        match gpio_port_label(pin) {
            Err(e) => Err(e),
            Ok(port) => match self.base(port) {
                Err(e) => Err(e),
                Ok(base) => Ok((base, pin % 16)),
            },
        }
    }

    /// What grouping three pins comes to: their input status bits, or the first port missing.
    pub open spec fn groups(self, pins: Seq<u8>, r: Result<InputGroup, DescriptorError>) -> bool {
        match line_bases(self.desc(), pins, 3) {
            Err(e) => r == Err::<InputGroup, _>(e),
            Ok(bases) => {
                &&& r matches Ok(group)
                &&& group.wf()
                &&& forall|i: int|
                    0 <= i < 3 ==> {
                        &&& #[trigger] group.line_addr(i) == reg::at(
                            bases[i],
                            gpio::istat(self.desc().gpio),
                        )
                        &&& group.line_pin(i) == pins[i] % 16
                    }
            },
        }
    }

    /// Three input lines to be read together.
    pub fn input_group(&self, pins: [u8; INPUT_GROUP_LINES]) -> (r: Result<
        InputGroup,
        DescriptorError,
    >)
        ensures
            self.groups(pins@, r),
    {
        proof {
            reveal_with_fuel(line_bases, 4);
        }
        let first: (u32, u8) = match self.line(pins[0]) {
            Ok(line) => line,
            Err(e) => {
                return Err(e);
            },
        };
        let second: (u32, u8) = match self.line(pins[1]) {
            Ok(line) => line,
            Err(e) => {
                return Err(e);
            },
        };
        let third: (u32, u8) = match self.line(pins[2]) {
            Ok(line) => line,
            Err(e) => {
                return Err(e);
            },
        };
        let lines: [(u32, u8); INPUT_GROUP_LINES] = [first, second, third];
        let group = InputGroup::resolve(self.desc.gpio, lines);
        proof {
            let bases = line_bases(self.desc, pins@, 3)->Ok_0;
            assert(lines[0] == first && lines[1] == second && lines[2] == third);
            assert(bases[0] == first.0 && bases[1] == second.0 && bases[2] == third.0);
            assert(first.1 == pins@[0] % 16 && second.1 == pins@[1] % 16 && third.1 == pins@[2]
                % 16);
            assert forall|i: int| 0 <= i < 3 implies {
                &&& #[trigger] group.line_addr(i) == reg::at(bases[i], gpio::istat(self.desc.gpio))
                &&& group.line_pin(i) == pins@[i] % 16
            } by {
                let line = lines[i];
                assert(i == 0 || i == 1 || i == 2);
                assert(group.line_addr(i) == reg::at(line.0, gpio::istat(self.desc.gpio)));
            }
            assert(first.1 < 32 && second.1 < 32 && third.1 < 32);
            assert(group.wf());
            assert(self.groups(pins@, Ok(group)));
        }
        Ok(group)
    }

    /// Clock the port of a pin; what is needed to go on with it.
    fn clock_pin<B: Bus>(&self, bus: &mut B, pin: u8) -> (r: Result<(u32, u32), DescriptorError>)
        ensures
            match pin_parts(self.desc(), pin) {
                Err(e) => r == Err::<(u32, u32), _>(e) && *final(bus) == *old(bus),
                Ok((base, rcu, bit)) => r == Ok::<_, DescriptorError>((base, rcu)) && reg::ran(
                    *old(bus),
                    *final(bus),
                    seq![bit.step(rcu)],
                ),
            },
    {
        let port: PeriphLabel = match gpio_port_label(pin) {
            Ok(port) => port,
            Err(e) => {
                return Err(e);
            },
        };
        let base: u32 = match self.base(port) {
            Ok(base) => base,
            Err(e) => {
                return Err(e);
            },
        };
        let rcu: u32 = match self.rcu_base() {
            Ok(rcu) => rcu,
            Err(e) => {
                return Err(e);
            },
        };
        match clock::enable_gpio_port(bus, rcu, self.desc.clock, port) {
            Ok(_) => Ok((base, rcu)),
            Err(e) => Err(e),
        }
    }

    /// Hand a pin to the general timer.
    pub fn route_general_pwm_pin<B: Bus>(&self, bus: &mut B, pin: u8) -> (r: Result<
        (),
        DescriptorError,
    >)
        ensures
            match pin_parts(self.desc(), pin) {
                Err(e) => r == Err::<(), _>(e) && *final(bus) == *old(bus),
                Ok((base, rcu, bit)) => r is Ok && reg::ran(
                    *old(bus),
                    *final(bus),
                    general_script(self.desc().gpio, base, rcu, bit, pin),
                ),
            },
    {
        let ghost b0 = *bus;
        let (base, rcu): (u32, u32) = match self.clock_pin(bus, pin) {
            Ok(parts) => parts,
            Err(e) => {
                return Err(e);
            },
        };
        let ghost bit = pin_parts(self.desc, pin)->Ok_0.2;
        let ghost clocked = seq![bit.step(rcu)];
        let ghost b1 = *bus;
        match self.desc.gpio {
            GpioPath::AhbCtlAfsel => {
                gpio::configure_af(
                    bus,
                    base,
                    GpioPath::AhbCtlAfsel,
                    pin,
                    PinRole::GenTimerAfPushPull,
                );
                proof {
                    reg::ran_append(
                        b0,
                        b1,
                        *bus,
                        clocked,
                        gpio::af_script(base, self.desc.gpio, pin, PinRole::GenTimerAfPushPull),
                    );
                }
            },
            GpioPath::ApbCrlCrh => {
                afio::set_swj_sw_only(bus, rcu);
                let ghost b2 = *bus;
                afio::remap_timer1_partial0(bus, rcu);
                let ghost b3 = *bus;
                gpio::configure_af(
                    bus,
                    base,
                    GpioPath::ApbCrlCrh,
                    pin,
                    PinRole::GenTimerAfPushPull,
                );
                proof {
                    let freed = clocked + afio::swj_script(rcu);
                    reg::ran_append(b0, b1, b2, clocked, afio::swj_script(rcu));
                    reg::ran_append(b0, b2, b3, freed, afio::remap_script(rcu));
                    reg::ran_append(
                        b0,
                        b3,
                        *bus,
                        freed + afio::remap_script(rcu),
                        gpio::af_script(base, self.desc.gpio, pin, PinRole::GenTimerAfPushPull),
                    );
                }
            },
        }
        Ok(())
    }

    /// Hand a pin to the advanced timer.
    pub fn route_advanced_pwm_pin<B: Bus>(&self, bus: &mut B, pin: u8) -> (r: Result<
        (),
        DescriptorError,
    >)
        ensures
            match pin_parts(self.desc(), pin) {
                Err(e) => r == Err::<(), _>(e) && *final(bus) == *old(bus),
                Ok((base, rcu, bit)) => r is Ok && reg::ran(
                    *old(bus),
                    *final(bus),
                    advanced_script(self.desc().gpio, base, rcu, bit, pin),
                ),
            },
    {
        let ghost b0 = *bus;
        let (base, rcu): (u32, u32) = match self.clock_pin(bus, pin) {
            Ok(parts) => parts,
            Err(e) => {
                return Err(e);
            },
        };
        let ghost b1 = *bus;
        gpio::configure_af(bus, base, self.desc.gpio, pin, PinRole::TimerAfPushPull);
        proof {
            let bit = pin_parts(self.desc, pin)->Ok_0.2;
            reg::ran_append(
                b0,
                b1,
                *bus,
                seq![bit.step(rcu)],
                gpio::af_script(base, self.desc.gpio, pin, PinRole::TimerAfPushPull),
            );
        }
        Ok(())
    }
}

/// On F10x, handing a pin to the general timer frees the JTAG pins and remaps the timer, both in
/// the same register: afterwards both settings stand, and nothing else in it has changed.
pub proof fn law_routing_frees_and_remaps(base: u32, rcu: u32, bit: EnableBit, pin: u8, w: u32)
    requires
        0x4001_0800 <= base < 0x4001_2000,
        0x4002_1000 <= rcu < 0x4002_1400,
        bit.reg < 0x400,
    ensures
        ({
            let after = reg::word_after(
                general_script(GpioPath::ApbCrlCrh, base, rcu, bit, pin),
                0x4001_0004,
                w,
            );
            &&& after & 0x0700_0000 == 0x0200_0000
            &&& after & 0x0000_0300 == 0x0000_0100
            &&& forall|other: u32|
                other & 0x0700_0000 == 0 && other & 0x0000_0300 == 0
                    ==> #[trigger] (after & other) == w & other
        }),
{
    broadcast use reg::group_after;

    let pcf0 = reg::at(afio::AFIO_BASE, afio::AFIO_PCF0);
    let clocked = seq![bit.step(rcu)];
    let freed = clocked + afio::swj_script(rcu);
    let routed = freed + afio::remap_script(rcu);
    let role = gpio::af_script(base, GpioPath::ApbCrlCrh, pin, PinRole::GenTimerAfPushPull);
    reg::word_after_append(clocked, afio::swj_script(rcu), pcf0, w);
    reg::word_after_append(freed, afio::remap_script(rcu), pcf0, w);
    reg::word_after_append(routed, role, pcf0, w);
    let v = reg::merge(w, afio::PCF0_SWJ_CFG, afio::PCF0_SWJ_CFG_SW_ONLY);
    let after = reg::merge(v, afio::PCF0_TIMER1_REMAP, afio::PCF0_TIMER1_REMAP_PARTIAL0);
    assert(reg::word_after(general_script(GpioPath::ApbCrlCrh, base, rcu, bit, pin), pcf0, w)
        == after);
    bits::masks();
    afio::law_settings_are_independent(rcu, w, 0);
    afio::law_settings_are_independent(rcu, v, 0);
    assert forall|other: u32|
        other & afio::PCF0_SWJ_CFG == 0 && other & afio::PCF0_TIMER1_REMAP == 0 implies
        #[trigger] (after & other) == w & other by {
        bits::merge_fields(w, afio::PCF0_SWJ_CFG, afio::PCF0_SWJ_CFG_SW_ONLY, other);
        bits::merge_fields(v, afio::PCF0_TIMER1_REMAP, afio::PCF0_TIMER1_REMAP_PARTIAL0, other);
    }
}

/// The port of a pin byte is told by its upper half, A to D and F; there is no other.
pub proof fn law_port_of(pin: u8)
    ensures
        port_of(pin) == Ok::<_, DescriptorError>(PeriphLabel::Gpioa) <==> pin < 0x10,
        port_of(pin) == Ok::<_, DescriptorError>(PeriphLabel::Gpiob) <==> 0x10 <= pin < 0x20,
        port_of(pin) == Ok::<_, DescriptorError>(PeriphLabel::Gpioc) <==> 0x20 <= pin < 0x30,
        port_of(pin) == Ok::<_, DescriptorError>(PeriphLabel::Gpiod) <==> 0x30 <= pin < 0x40,
        port_of(pin) == Ok::<_, DescriptorError>(PeriphLabel::Gpiof) <==> 0x50 <= pin < 0x60,
        port_of(pin) == Err::<PeriphLabel, _>(DescriptorError::MissingBase(PeriphLabel::Gpioa))
            <==> 0x40 <= pin < 0x50 || 0x60 <= pin,
{
}

/// What a pin needs is there where its port, the clock controller and the clock of the port are; else
/// the first of them that is missing is told.
pub proof fn law_pin_parts(desc: McuDescriptor, pin: u8)
    ensures
        match port_of(pin) {
            Err(e) => pin_parts(desc, pin) == Err::<(u32, u32, EnableBit), _>(e),
            Ok(port) => {
                let base = addr::lookup(desc.addrs@, port);
                let rcu = addr::lookup(desc.addrs@, PeriphLabel::Rcu);
                let bit = clock::gpio_bit(desc.clock, port);
                &&& pin_parts(desc, pin) == port_parts(desc, port)
                &&& base is None ==> pin_parts(desc, pin) == Err::<(u32, u32, EnableBit), _>(
                    DescriptorError::MissingBase(port),
                )
                &&& base is Some && rcu is None ==> pin_parts(desc, pin) == Err::<
                    (u32, u32, EnableBit),
                    _,
                >(DescriptorError::MissingBase(PeriphLabel::Rcu))
                &&& base is Some && rcu is Some ==> match bit {
                    Err(e) => pin_parts(desc, pin) == Err::<(u32, u32, EnableBit), _>(e),
                    Ok(b) => pin_parts(desc, pin) == Ok::<_, DescriptorError>((base->0, rcu->0, b)),
                }
            },
        },
{
}

/// A pin handed to the advanced timer is clocked before anything else, and then its port has it in
/// the role of a timer output: 0b1011 on F10x; the alternate mode with function 2 on F1x0.
pub proof fn law_advanced_routing(base: u32, rcu: u32, bit: EnableBit, pin: u8, w: u32)
    requires
        0x4002_1000 <= rcu < 0x4002_1400,
        bit.reg < 0x400,
        0x4001_0800 <= base < 0x4001_2000 || 0x4800_0000 <= base < 0x4800_2000,
    ensures
        ({
            let n = (pin % 16) as int;
            let f10x = advanced_script(GpioPath::ApbCrlCrh, base, rcu, bit, pin);
            let f1x0 = advanced_script(GpioPath::AhbCtlAfsel, base, rcu, bit, pin);
            let enables = reg::at(rcu, bit.reg);
            &&& f10x[0] == bit.step(rcu)
            &&& f1x0[0] == bit.step(rcu)
            &&& reg::word_after(f10x, enables, w) == w | (1u32 << bit.bit)
            &&& reg::word_after(f1x0, enables, w) == w | (1u32 << bit.bit)
            &&& registers::field(
                reg::word_after(f10x, reg::at(base, if n < 8 {
                    0x00
                } else {
                    0x04
                }), w),
                4 * (n % 8),
                15,
            ) == 0xB
            &&& registers::field(reg::word_after(f1x0, reg::at(base, 0x00), w), 2 * n, 3) == 2
            &&& registers::field(
                reg::word_after(f1x0, reg::at(base, if n < 8 {
                    0x20
                } else {
                    0x24
                }), w),
                4 * (n % 8),
                15,
            ) == 2
        }),
{
    let n = (pin % 16) as int;
    let clocked = seq![bit.step(rcu)];
    let enables = reg::at(rcu, bit.reg);
    let role = PinRole::TimerAfPushPull;
    let f10x = gpio::af_script(base, GpioPath::ApbCrlCrh, pin, role);
    let f1x0 = gpio::af_script(base, GpioPath::AhbCtlAfsel, pin, role);
    let low: u32 = if n < 8 {
        0x00
    } else {
        0x04
    };
    let fun: u32 = if n < 8 {
        0x20
    } else {
        0x24
    };
    clock::law_enable_sets_one_bit(bit, rcu, enables, w);
    clock::law_enable_sets_one_bit(bit, rcu, reg::at(base, low), w);
    clock::law_enable_sets_one_bit(bit, rcu, reg::at(base, fun), w);
    clock::law_enable_sets_one_bit(bit, rcu, reg::at(base, 0), w);
    reg::word_after_append(clocked, f10x, enables, w);
    reg::word_after_append(clocked, f1x0, enables, w);
    reg::word_after_append(clocked, f10x, reg::at(base, low), w);
    reg::word_after_append(clocked, f1x0, reg::at(base, 0), w);
    reg::word_after_append(clocked, f1x0, reg::at(base, fun), w);
    registers::law_f10x_role(base, pin, role, w | (1u32 << bit.bit), enables);
    registers::law_f1x0_role(base, pin, role, w | (1u32 << bit.bit), enables);
    registers::law_f10x_role(base, pin, role, w, enables);
    registers::law_f1x0_role(base, pin, role, w, enables);
}

/// A pin handed to the general timer is configured as one handed to the advanced timer, on both
/// families; on F1x0 there is no other difference.
pub proof fn law_general_routing(base: u32, rcu: u32, bit: EnableBit, pin: u8, x: u32, w: u32)
    requires
        x != 0x4001_0004,
        x != reg::at(rcu, 0x18),
        reg::at(rcu, 0x18) != 0x4001_0004,
    ensures
        general_script(GpioPath::AhbCtlAfsel, base, rcu, bit, pin) == advanced_script(
            GpioPath::AhbCtlAfsel,
            base,
            rcu,
            bit,
            pin,
        ),
        general_script(GpioPath::ApbCrlCrh, base, rcu, bit, pin)[0] == bit.step(rcu),
        reg::word_after(general_script(GpioPath::ApbCrlCrh, base, rcu, bit, pin), x, w)
            == reg::word_after(advanced_script(GpioPath::ApbCrlCrh, base, rcu, bit, pin), x, w),
{
    let clocked = seq![bit.step(rcu)];
    let freed = clocked + afio::swj_script(rcu);
    let remapped = freed + afio::remap_script(rcu);
    let role = gpio::af_script(base, GpioPath::ApbCrlCrh, pin, PinRole::GenTimerAfPushPull);
    let v = reg::word_after(clocked, x, w);
    assert(role == gpio::af_script(base, GpioPath::ApbCrlCrh, pin, PinRole::TimerAfPushPull));
    reg::word_after_append(remapped, role, x, w);
    reg::word_after_append(freed, afio::remap_script(rcu), x, w);
    reg::word_after_append(clocked, afio::swj_script(rcu), x, w);
    reg::word_after_append(clocked, role, x, w);
    afio::law_settings_are_independent(rcu, v, x);
}

/// The lines of a group are the input status bits of its pins, each in the port of its pin; where a
/// port is missing there is no group, and the first that is missing is told.
pub proof fn law_group_lines(chip: Chip, pins: Seq<u8>, r: Result<InputGroup, DescriptorError>, i: int)
    requires
        chip.groups(pins, r),
        pins.len() == 3,
        0 <= i < 3,
    ensures
        r matches Ok(group) ==> {
            &&& port_of(pins[i]) matches Ok(port)
            &&& addr::lookup(chip.desc().addrs@, port) matches Some(base)
            &&& group.line_addr(i) == reg::at(base, if chip.desc().gpio is ApbCrlCrh {
                0x08
            } else {
                0x10
            })
            &&& group.line_pin(i) == pins[i] % 16
        },
        r is Ok <==> forall|j: int| 0 <= j < 3 ==> line_base(chip.desc(), #[trigger] pins[j]) is Ok,
        line_base(chip.desc(), pins[i]) is Err && (forall|j: int|
            0 <= j < i ==> line_base(chip.desc(), #[trigger] pins[j]) is Ok) ==> r == Err::<
            InputGroup,
            _,
        >(line_base(chip.desc(), pins[i])->Err_0),
{
    reveal_with_fuel(line_bases, 4);
    let d = chip.desc();
    assert(i == 0 || i == 1 || i == 2);
    assert(line_base(d, pins[0]) is Ok || line_base(d, pins[0]) is Err);
    assert(line_base(d, pins[1]) is Ok || line_base(d, pins[1]) is Err);
    assert(line_base(d, pins[2]) is Ok || line_base(d, pins[2]) is Err);
    if let Ok(group) = r {
        let bases = line_bases(d, pins, 3)->Ok_0;
        assert(bases[0] == line_base(d, pins[0])->Ok_0);
        assert(bases[1] == line_base(d, pins[1])->Ok_0);
        assert(bases[2] == line_base(d, pins[2])->Ok_0);
        assert(group.line_addr(i) == reg::at(bases[i], gpio::istat(d.gpio)));
    }
}

/// The base of the port of a pin.
pub open spec fn line_base(desc: McuDescriptor, pin: u8) -> Result<u32, DescriptorError> {
    match port_of(pin) {
        Err(e) => Err(e),
        Ok(port) => addr::resolved(desc.addrs@, port),
    }
}

} // verus!
