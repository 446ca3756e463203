//! Finding out which part this is.
//!
//! One binary runs on every supported part. [`probe::run`] tells the family by where its GPIO
//! ports answer, measures how many advanced timers and ADCs there are, and reads the flash size;
//! [`synthesize`] makes the descriptor of it that everything else is built on.

use vstd::prelude::*;

use crate::addr::{self, AddrTable, PeriphLabel};
use crate::chip::Chip;
use crate::descriptor::{AdcPath, ClockPath, GpioPath, IrqLayout, McuDescriptor, PageSize};
use crate::error::DetectError;
use crate::reg::Bus;

use self::probe::{Detected, ProbeTable};

pub mod bringup;
pub mod guard;
pub mod laws;
pub mod probe;
pub mod silicon;

verus! {

/// The two families.
#[derive(Debug, Clone, Copy, PartialEq, Eq, Structural)]
pub enum Family {
    /// GD32F1x0.
    F1x0,
    /// GD32F10x.
    F10x,
}

/// The second advanced timer.
pub const TIMER7_BASE: u32 = 0x4001_3400;

/// The second ADC.
pub const ADC1_BASE: u32 = 0x4001_2800;

/// The third ADC.
pub const ADC2_BASE: u32 = 0x4001_3C00;

/// Where the flash size is read.
pub const FLASH_DENSITY_ADDR: u32 = 0x1FFF_F7E0;

/// F10x parts with more flash than this, in KiB, have 2 KiB pages.
pub const F10X_K2_THRESHOLD_KIB: u16 = 128;

/// What every part of a family has in common.
pub struct FamilyModel {
    pub gpio: GpioPath,
    pub clock: ClockPath,
    pub adc: AdcPath,
    pub irq: IrqLayout,
    pub addrs: AddrTable,
    pub max_adv_timers: u8,
    pub max_adcs: u8,
}

/// The peripherals every part of a family has, and where. The console's USART0 is not among them:
/// [`bringup`] adds it where it is used.
pub open spec fn family_bases(family: Family) -> Map<PeriphLabel, u32> {
    match family {
        Family::F10x => Map::empty().insert(
            PeriphLabel::Usart1,
            0x4000_4400,
        ).insert(
            PeriphLabel::Usart2,
            0x4000_4800,
        ).insert(
            PeriphLabel::Gpioa,
            0x4001_0800,
        ).insert(
            PeriphLabel::Gpiob,
            0x4001_0C00,
        ).insert(
            PeriphLabel::Gpioc,
            0x4001_1000,
        ).insert(
            PeriphLabel::Gpiod,
            0x4001_1400,
        ).insert(
            PeriphLabel::Gpiof,
            0x4001_1C00,
        ).insert(
            PeriphLabel::Rcu,
            0x4002_1000,
        ).insert(
            PeriphLabel::I2c0,
            0x4000_5400,
        ).insert(
            PeriphLabel::Spi0,
            0x4001_3000,
        ).insert(
            PeriphLabel::Adc0,
            0x4001_2400,
        ).insert(
            PeriphLabel::Timer0,
            0x4001_2C00,
        ).insert(
            PeriphLabel::Fwdgt,
            0x4000_3000,
        ).insert(
            PeriphLabel::Timer1,
            0x4000_0000,
        ),
        Family::F1x0 => Map::empty().insert(
            PeriphLabel::Usart1,
            0x4000_4400,
        ).insert(
            PeriphLabel::Gpioa,
            0x4800_0000,
        ).insert(
            PeriphLabel::Gpiob,
            0x4800_0400,
        ).insert(
            PeriphLabel::Gpioc,
            0x4800_0800,
        ).insert(
            PeriphLabel::Gpiod,
            0x4800_0C00,
        ).insert(
            PeriphLabel::Gpiof,
            0x4800_1400,
        ).insert(
            PeriphLabel::Rcu,
            0x4002_1000,
        ).insert(
            PeriphLabel::I2c0,
            0x4000_5400,
        ).insert(
            PeriphLabel::Spi0,
            0x4000_3800,
        ).insert(
            PeriphLabel::Adc0,
            0x4001_2400,
        ).insert(
            PeriphLabel::Timer0,
            0x4001_2C00,
        ).insert(
            PeriphLabel::Fwdgt,
            0x4000_3000,
        ).insert(
            PeriphLabel::Timer1,
            0x4000_0000,
        ),
    }
}

/// What every part of a family has in common.
pub fn family_model(family: Family) -> (r: FamilyModel)
    ensures
        r.addrs@ == family_bases(family),
        match family {
            Family::F10x => {
                &&& r.gpio is ApbCrlCrh
                &&& r.clock is F10xRcc
                &&& r.adc is Dual
                &&& r.irq is F10xSeparate
                &&& r.max_adv_timers == 2
                &&& r.max_adcs == 2
            },
            Family::F1x0 => {
                &&& r.gpio is AhbCtlAfsel
                &&& r.clock is F1x0Rcu
                &&& r.adc is Single
                &&& r.irq is F1x0Grouped
                &&& r.max_adv_timers == 1
                &&& r.max_adcs == 1
            },
        },
{
    let mut addrs = AddrTable::new();
    match family {
        Family::F10x => {
            addrs.set(PeriphLabel::Usart1, 0x4000_4400);
            addrs.set(PeriphLabel::Usart2, 0x4000_4800);
            addrs.set(PeriphLabel::Gpioa, 0x4001_0800);
            addrs.set(PeriphLabel::Gpiob, 0x4001_0C00);
            addrs.set(PeriphLabel::Gpioc, 0x4001_1000);
            addrs.set(PeriphLabel::Gpiod, 0x4001_1400);
            addrs.set(PeriphLabel::Gpiof, 0x4001_1C00);
            addrs.set(PeriphLabel::Rcu, 0x4002_1000);
            addrs.set(PeriphLabel::I2c0, 0x4000_5400);
            addrs.set(PeriphLabel::Spi0, 0x4001_3000);
            addrs.set(PeriphLabel::Adc0, 0x4001_2400);
            addrs.set(PeriphLabel::Timer0, 0x4001_2C00);
            addrs.set(PeriphLabel::Fwdgt, 0x4000_3000);
            addrs.set(PeriphLabel::Timer1, 0x4000_0000);
            FamilyModel {
                gpio: GpioPath::ApbCrlCrh,
                clock: ClockPath::F10xRcc,
                adc: AdcPath::Dual,
                irq: IrqLayout::F10xSeparate,
                addrs,
                max_adv_timers: 2,
                max_adcs: 2,
            }
        },
        Family::F1x0 => {
            addrs.set(PeriphLabel::Usart1, 0x4000_4400);
            addrs.set(PeriphLabel::Gpioa, 0x4800_0000);
            addrs.set(PeriphLabel::Gpiob, 0x4800_0400);
            addrs.set(PeriphLabel::Gpioc, 0x4800_0800);
            addrs.set(PeriphLabel::Gpiod, 0x4800_0C00);
            addrs.set(PeriphLabel::Gpiof, 0x4800_1400);
            addrs.set(PeriphLabel::Rcu, 0x4002_1000);
            addrs.set(PeriphLabel::I2c0, 0x4000_5400);
            addrs.set(PeriphLabel::Spi0, 0x4000_3800);
            addrs.set(PeriphLabel::Adc0, 0x4001_2400);
            addrs.set(PeriphLabel::Timer0, 0x4001_2C00);
            addrs.set(PeriphLabel::Fwdgt, 0x4000_3000);
            addrs.set(PeriphLabel::Timer1, 0x4000_0000);
            FamilyModel {
                gpio: GpioPath::AhbCtlAfsel,
                clock: ClockPath::F1x0Rcu,
                adc: AdcPath::Single,
                irq: IrqLayout::F1x0Grouped,
                addrs,
                max_adv_timers: 1,
                max_adcs: 1,
            }
        },
    }
}

/// The most advanced timers and ADCs a part of a family has.
pub fn family_capability(family: Family) -> (r: (u8, u8))
    ensures
        r == (match family {
            Family::F10x => (2u8, 2u8),
            Family::F1x0 => (1u8, 1u8),
        }),
{
    let model = family_model(family);
    (model.max_adv_timers, model.max_adcs)
}

/// The page size of a part.
pub open spec fn page_of(family: Family, flash_kib: u16) -> PageSize {
    if family is F10x && flash_kib > F10X_K2_THRESHOLD_KIB {
        PageSize::K2
    } else {
        PageSize::K1
    }
}

/// The page size of a part.
pub fn flash_page_for(family: Family, flash_kib: u16) -> (r: PageSize)
    ensures
        r == page_of(family, flash_kib),
{
    match family {
        Family::F1x0 => PageSize::K1,
        Family::F10x => if flash_kib > F10X_K2_THRESHOLD_KIB {
            PageSize::K2
        } else {
            PageSize::K1
        },
    }
}

/// A label's base where it is there, else nothing more.
pub open spec fn added(
    bases: Map<PeriphLabel, u32>,
    present: bool,
    label: PeriphLabel,
    base: u32,
) -> Map<PeriphLabel, u32> {
    if present {
        bases.insert(label, base)
    } else {
        bases
    }
}

/// Where the peripherals of a detected part are: those of its family, and the second timer, the
/// second and the third ADC where that many were counted.
pub open spec fn detected_bases(d: Detected) -> Map<PeriphLabel, u32> {
    added(
        added(
            added(
                family_bases(d.family),
                d.adv_timers >= 2,
                PeriphLabel::Timer7,
                TIMER7_BASE,
            ),
            d.adc_count >= 2,
            PeriphLabel::Adc1,
            ADC1_BASE,
        ),
        d.adc_count >= 3,
        PeriphLabel::Adc2,
        ADC2_BASE,
    )
}

/// Whether a descriptor is that of a detected part.
pub open spec fn describes(m: McuDescriptor, d: Detected) -> bool {
    &&& m.addrs@ == detected_bases(d)
    &&& m.flash_page == page_of(d.family, d.flash_kib)
    &&& m.flash_kib == d.flash_kib
    &&& m.adv_timers == d.adv_timers
    &&& m.adc_count == d.adc_count
    &&& match d.family {
        Family::F10x => {
            &&& m.gpio is ApbCrlCrh
            &&& m.clock is F10xRcc
            &&& m.adc is Dual
            &&& m.irq is F10xSeparate
        },
        Family::F1x0 => {
            &&& m.gpio is AhbCtlAfsel
            &&& m.clock is F1x0Rcu
            &&& m.adc is Single
            &&& m.irq is F1x0Grouped
        },
    }
}

/// The descriptor of a detected part.
pub fn synthesize(detected: &Detected) -> (r: McuDescriptor)
    ensures
        describes(r, *detected),
{
    let model = family_model(detected.family);
    McuDescriptor {
        gpio: model.gpio,
        clock: model.clock,
        adc: model.adc,
        irq: model.irq,
        addrs: model.addrs.with(
            detected.adv_timers >= 2,
            PeriphLabel::Timer7,
            TIMER7_BASE,
        ).with(detected.adc_count >= 2, PeriphLabel::Adc1, ADC1_BASE).with(
            detected.adc_count >= 3,
            PeriphLabel::Adc2,
            ADC2_BASE,
        ),
        flash_page: flash_page_for(detected.family, detected.flash_kib),
        flash_kib: detected.flash_kib,
        adv_timers: detected.adv_timers,
        adc_count: detected.adc_count,
    }
}

/// The F103 reference part: 64 KiB, one advanced timer, two ADCs.
pub fn descriptor_f103() -> (r: McuDescriptor)
    ensures
        describes(
            r,
            (Detected { family: Family::F10x, flash_kib: 64, adv_timers: 1, adc_count: 2 }),
        ),
{
    synthesize(&Detected { family: Family::F10x, flash_kib: 64, adv_timers: 1, adc_count: 2 })
}

/// The F130 reference part: 64 KiB, one advanced timer, one ADC.
pub fn descriptor_f130() -> (r: McuDescriptor)
    ensures
        describes(
            r,
            (Detected { family: Family::F1x0, flash_kib: 64, adv_timers: 1, adc_count: 1 }),
        ),
{
    synthesize(&Detected { family: Family::F1x0, flash_kib: 64, adv_timers: 1, adc_count: 1 })
}

/// The chip an outcome of the probe stands for: none where no family answered.
pub fn chip_of(found: Option<Detected>) -> (r: Result<Chip, DetectError>)
    ensures
        match r {
            Ok(chip) => found is Some && describes(chip.desc(), found->0),
            Err(e) => found is None && e == DetectError::NoFamily,
        },
{
    match found {
        Some(detected) => Ok(Chip::from_descriptor(synthesize(&detected))),
        None => Err(DetectError::NoFamily),
    }
}

/// Find out which part this is.
pub fn detect_chip<B: Bus>(bus: &mut B, table: ProbeTable) -> (r: Result<Chip, DetectError>)
    ensures
        exists|found: Option<Detected>|
            {
                &&& #[trigger] probe::observed(*old(bus), *final(bus), table, found)
                &&& match r {
                    Ok(chip) => found is Some && describes(chip.desc(), found->0),
                    Err(e) => found is None && e == DetectError::NoFamily,
                }
            },
{
    let found: Option<Detected> = probe::run(bus, table);
    chip_of(found)
}

// --- laws -------------------------------------------------------------------------------------

/// Every descriptor of a detected part passes the range check of its own register models.
pub proof fn law_descriptors_fit_their_models(m: McuDescriptor, d: Detected)
    requires
        describes(m, d),
    ensures
        AddrTable::fits(m.addrs@, m.gpio),
{
}

/// The second timer and the second and third ADC are there exactly where they were counted; the
/// rest of a family is always there.
pub proof fn law_counted_bases(m: McuDescriptor, d: Detected, label: PeriphLabel)
    requires
        describes(m, d),
    ensures
        m.addrs@.contains_key(PeriphLabel::Timer7) == (d.adv_timers >= 2),
        m.addrs@.contains_key(PeriphLabel::Adc1) == (d.adc_count >= 2),
        m.addrs@.contains_key(PeriphLabel::Adc2) == (d.adc_count >= 3),
        family_bases(d.family).contains_key(label) ==> m.addrs@.contains_key(label)
            && m.addrs@[label] == family_bases(d.family)[label],
{
}

/// Where the peripherals of a part are: its ports a kilobyte apart from its family's first on, the
/// rest where both families or its family have them. What no family has in common is not there.
pub proof fn law_bases(m: McuDescriptor, d: Detected)
    requires
        describes(m, d),
    ensures
        ({
            let at = |label: PeriphLabel| addr::lookup(m.addrs@, label);
            let f10x = d.family is F10x;
            let port = |i: int|
                Some(
                    (if f10x {
                        0x4001_0800int
                    } else {
                        0x4800_0000
                    } + 0x400 * i) as u32,
                );
            &&& at(PeriphLabel::Gpioa) == port(0)
            &&& at(PeriphLabel::Gpiob) == port(1)
            &&& at(PeriphLabel::Gpioc) == port(2)
            &&& at(PeriphLabel::Gpiod) == port(3)
            &&& at(PeriphLabel::Gpioe) is None
            &&& at(PeriphLabel::Gpiof) == port(5)
            &&& at(PeriphLabel::Rcu) == Some(0x4002_1000u32)
            &&& at(PeriphLabel::Usart0) is None
            &&& at(PeriphLabel::Usart1) == Some(0x4000_4400u32)
            &&& at(PeriphLabel::Usart2) == if f10x {
                Some(0x4000_4800u32)
            } else {
                None
            }
            &&& at(PeriphLabel::I2c0) == Some(0x4000_5400u32)
            &&& at(PeriphLabel::I2c1) is None
            &&& at(PeriphLabel::Spi0) == Some(
                if f10x {
                    0x4001_3000u32
                } else {
                    0x4000_3800
                },
            )
            &&& at(PeriphLabel::Spi1) is None
            &&& at(PeriphLabel::Adc0) == Some(0x4001_2400u32)
            &&& at(PeriphLabel::Adc1) == if d.adc_count >= 2 {
                Some(0x4001_2800u32)
            } else {
                None
            }
            &&& at(PeriphLabel::Adc2) == if d.adc_count >= 3 {
                Some(0x4001_3C00u32)
            } else {
                None
            }
            &&& at(PeriphLabel::Timer0) == Some(0x4001_2C00u32)
            &&& at(PeriphLabel::Timer7) == if d.adv_timers >= 2 {
                Some(0x4001_3400u32)
            } else {
                None
            }
            &&& at(PeriphLabel::Timer1) == Some(0x4000_0000u32)
            &&& at(PeriphLabel::Fwdgt) == Some(0x4000_3000u32)
        }),
{
}

/// What else is known of a part: its register models by its family, its counts and its flash size as
/// they were measured, and pages of two KiB only on F10x parts with more than 128 KiB.
pub proof fn law_description(m: McuDescriptor, d: Detected)
    requires
        describes(m, d),
    ensures
        m.gpio is ApbCrlCrh <==> d.family is F10x,
        m.clock is F10xRcc <==> d.family is F10x,
        m.adc is Dual <==> d.family is F10x,
        m.irq is F10xSeparate <==> d.family is F10x,
        m.flash_page.size() == (if d.family is F10x && d.flash_kib > 128 {
            2048u32
        } else {
            1024
        }),
        m.flash_kib == d.flash_kib,
        m.adv_timers == d.adv_timers,
        m.adc_count == d.adc_count,
{
}

} // verus!
