//! The drivers on a part: a model of one with faults, a flash controller, and registers that do
//! not keep everything.

use std::collections::HashMap;

use runtime_hal::addr::PeriphLabel;
use runtime_hal::chip::Chip;
use runtime_hal::descriptor::{GpioPath, PageSize};
use runtime_hal::detect::probe::{
    measure_counts, probe_family, run, MeasuredCounts, ProbeTable, SHCSR_ADDR, VTOR_ADDR,
};
use runtime_hal::detect::{descriptor_f103, detect_chip, Family, FLASH_DENSITY_ADDR};
use runtime_hal::device::{Device, Port};
use runtime_hal::dma::{service_dma_rx, DmaRxCtx, DmaRxMap, DMA0_BASE, DMA_INTC, DMA_INTF};
use runtime_hal::error::{DetectError, FmcError};
use runtime_hal::fmc::{
    Fmc, CTL, CTL_LK, CTL_PER, CTL_START, FLASH_BASE, FMC_BASE, KEY, KEY1, KEY2, STAT, STAT_CLEAR,
    STAT_PGERR, STAT_WPERR,
};
use runtime_hal::reg::{Bus, Reg32, Want};

#[derive(Debug, Clone, Copy, PartialEq, Eq)]
enum Did {
    Load(u32),
    Store(u32, u32),
    StoreHalf(u32, u16),
    Fence,
    Probe(u32),
}

/// A part: what is at which address, and which addresses nothing answers at.
#[derive(Default)]
struct Part {
    words: HashMap<u32, u32>,
    halves: HashMap<u32, u16>,
    /// Reads of these windows fault.
    faults: Vec<(u32, u32)>,
    /// Stores to these words are not kept.
    absent: Vec<u32>,
    done: Vec<Did>,
}

impl Part {
    fn word(&self, addr: u32) -> u32 {
        self.words.get(&addr).copied().unwrap_or(0)
    }
}

impl Port for Part {
    fn load(&mut self, addr: u32) -> u32 {
        self.done.push(Did::Load(addr));
        self.word(addr)
    }

    fn store(&mut self, addr: u32, value: u32) {
        self.done.push(Did::Store(addr, value));
        if addr == FMC_BASE + STAT {
            let cleared = self.word(addr) & !value;
            self.words.insert(addr, cleared);
        } else if !self.absent.contains(&addr) {
            self.words.insert(addr, value);
        }
    }

    fn load_half(&mut self, addr: u32) -> u16 {
        self.halves.get(&addr).copied().unwrap_or(0xFFFF)
    }

    fn store_half(&mut self, addr: u32, value: u16) {
        self.done.push(Did::StoreHalf(addr, value));
        self.halves.insert(addr, value);
    }

    fn fence(&mut self) {
        self.done.push(Did::Fence);
    }

    fn probe(&mut self, addr: u32) -> Option<u32> {
        self.done.push(Did::Probe(addr));
        if self.faults.iter().any(|w| w.0 <= addr && addr < w.1) {
            None
        } else {
            Some(self.word(addr))
        }
    }
}

const TABLE: ProbeTable = ProbeTable {
    addr: 0x2000_0000,
    entry: 0x0800_0001,
};
const AHB_GPIO: (u32, u32) = (0x4800_0000, 0x4800_2000);
const APB_GPIO: (u32, u32) = (0x4001_0800, 0x4001_2000);

fn f103c8() -> Part {
    let mut part = Part {
        faults: vec![AHB_GPIO],
        absent: vec![0x4001_3428, 0x4001_3C28],
        ..Part::default()
    };
    part.words.insert(VTOR_ADDR, 0x0800_0000);
    part.words.insert(FLASH_DENSITY_ADDR, 0x0040);
    part
}

#[test]
fn an_f10x_part_is_told_by_the_fault_of_the_other_family() {
    let mut bus = Device::new(f103c8());
    assert_eq!(probe_family(&mut bus), Some(Family::F10x));
    assert_eq!(bus.port().word(0x4002_1014), 1 << 17);
    assert_eq!(bus.port().word(0x4002_1018), 1 << 2);
}

#[test]
fn an_f10x_part_is_detected_with_what_it_has() {
    let mut bus = Device::new(f103c8());
    let chip = detect_chip(&mut bus, TABLE).unwrap();
    assert_eq!(*chip.descriptor(), descriptor_f103());
    assert_eq!(bus.port().word(VTOR_ADDR), 0x0800_0000);
    assert_eq!(bus.port().word(SHCSR_ADDR), 0);
    assert_eq!(bus.port().word(TABLE.addr + 20), TABLE.entry);
}

#[test]
fn a_dense_f10x_part_has_large_pages_and_everything() {
    let mut part = f103c8();
    part.absent.clear();
    part.words.insert(FLASH_DENSITY_ADDR, 256);
    let chip = detect_chip(&mut Device::new(part), TABLE).unwrap();
    assert_eq!(chip.gpio(), GpioPath::ApbCrlCrh);
    assert_eq!(chip.adv_timers(), 2);
    assert_eq!(chip.adc_count(), 3);
    assert_eq!(chip.flash_page(), PageSize::K2);
    assert!(chip.has_advanced_timer(PeriphLabel::Timer7));
}

#[test]
fn an_absent_peripheral_is_not_counted() {
    let mut part = f103c8();
    part.faults.push((0x4001_2800, 0x4001_2C00));
    assert_eq!(
        measure_counts(&mut Device::new(part), TABLE),
        MeasuredCounts {
            adv_timers: 1,
            adc_count: 1
        }
    );
}

#[test]
fn a_part_of_no_family_is_refused_and_left_as_it_was() {
    let mut part = f103c8();
    part.faults.push(APB_GPIO);
    let mut bus = Device::new(part);
    assert_eq!(run(&mut bus, TABLE), None);
    assert_eq!(
        detect_chip(&mut bus, TABLE).err(),
        Some(DetectError::NoFamily)
    );
    assert_eq!(bus.port().word(VTOR_ADDR), 0x0800_0000);
    assert_eq!(bus.port().word(SHCSR_ADDR), 0);
}

fn fmc() -> Fmc {
    Fmc::new(&Chip::from_descriptor(descriptor_f103()))
}

#[test]
fn a_page_erase_is_the_controllers_sequence() {
    let mut part = Part::default();
    part.words.insert(FMC_BASE + CTL, CTL_LK);
    let mut bus = Device::new(part);
    let page = FLASH_BASE + 0x400;
    assert_eq!(fmc().erase_page(&mut bus, page), Ok(()));
    assert_eq!(
        bus.port().done,
        vec![
            Did::Load(FMC_BASE + CTL),
            Did::Store(FMC_BASE + KEY, KEY1),
            Did::Store(FMC_BASE + KEY, KEY2),
            Did::Store(FMC_BASE + CTL, CTL_PER),
            Did::Store(FMC_BASE + 0x14, page),
            Did::Store(FMC_BASE + CTL, CTL_PER | CTL_START),
            Did::Load(FMC_BASE + STAT),
            Did::Store(FMC_BASE + STAT, STAT_CLEAR),
            Did::Store(FMC_BASE + CTL, 0),
        ]
    );
}

#[test]
fn an_unlocked_controller_is_not_unlocked_again() {
    let mut bus = Device::new(Part::default());
    assert_eq!(fmc().program(&mut bus, FLASH_BASE, &[0x34, 0x12]), Ok(()));
    assert_eq!(
        bus.port().done,
        vec![
            Did::Load(FMC_BASE + CTL),
            Did::Store(FMC_BASE + CTL, 1),
            Did::StoreHalf(FLASH_BASE, 0x1234),
            Did::Load(FMC_BASE + STAT),
            Did::Store(FMC_BASE + STAT, STAT_CLEAR),
            Did::Store(FMC_BASE + CTL, 0),
        ]
    );
}

#[test]
fn the_controllers_errors_are_told_and_cleared() {
    for (flag, error) in [
        (STAT_WPERR, FmcError::WriteProtect),
        (STAT_PGERR, FmcError::ProgramError),
    ] {
        let mut part = Part::default();
        part.words.insert(FMC_BASE + STAT, flag);
        let mut bus = Device::new(part);
        assert_eq!(fmc().erase_page(&mut bus, FLASH_BASE), Err(error));
        assert_eq!(bus.port().word(FMC_BASE + STAT), 0);
    }
}

#[test]
fn on_a_part_the_flags_are_cleared_by_the_controller() {
    let mut part = Part::default();
    part.words.insert(DMA0_BASE + DMA_INTF, 0x200);
    let mut bus = Device::new(part);
    let map = DmaRxMap::module_rx();
    let mut ctx = DmaRxCtx {
        installed: true,
        base: map.base,
        channel: map.channel,
        wraps: 0,
    };
    service_dma_rx(&mut bus, &mut ctx);
    assert_eq!(ctx.wraps, 1);
    assert_eq!(
        bus.port().done,
        vec![
            Did::Load(DMA0_BASE + DMA_INTF),
            Did::Store(DMA0_BASE + DMA_INTC, 0x300),
        ]
    );
}

#[test]
fn a_wait_is_broken_off_by_an_abort_bit() {
    let mut part = Part::default();
    part.words.insert(0x10, 0x400);
    let mut bus = Device::new(part);
    assert!(!bus.is_flat());
    let reg = Reg32::new(0x10, 0);
    assert_eq!(
        reg.poll(&mut bus, Want::High { mask: 1 }, 0x400, 1_000),
        Err(0x400)
    );
    assert_eq!(bus.port().done.len(), 1);
    assert_eq!(
        reg.poll(&mut bus, Want::Reads { mask: 0xF00, value: 0x400 }, 0, 1),
        Ok(0x400)
    );
}
