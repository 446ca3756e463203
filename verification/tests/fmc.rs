//! Flash: erasing, programming, refusals, status decoding.

use runtime_hal::chip::Chip;
use runtime_hal::descriptor::{McuDescriptor, PageSize};
use runtime_hal::detect::{descriptor_f103, descriptor_f130};
use runtime_hal::error::FmcError;
use runtime_hal::fmc::{
    decode, Fmc, ADDR, CTL, CTL_LK, CTL_PER, CTL_PG, CTL_START, FLASH_BASE, FMC_BASE, KEY, KEY2,
    STAT, STAT_CLEAR, STAT_ENDF, STAT_PGERR, STAT_TIMEOUT, STAT_WPERR,
};
use runtime_hal::reg::Bus;
use runtime_hal::regfile::RegisterFile;

const KEY_A: u32 = FMC_BASE + KEY;
const STAT_A: u32 = FMC_BASE + STAT;
const CTL_A: u32 = FMC_BASE + CTL;
const ADDR_A: u32 = FMC_BASE + ADDR;

const SENTINEL: u32 = 0xDEAD_BEEF;

fn seed_reset() -> RegisterFile {
    RegisterFile::new()
}

fn chip_k1() -> Chip {
    let mut d: McuDescriptor = descriptor_f130();
    d.flash_kib = 64; // K1 -> 1 KiB page, 64 KiB extent.
    Chip::from_descriptor(d)
}

fn chip_k2() -> Chip {
    let mut d: McuDescriptor = descriptor_f103();
    d.flash_page = PageSize::K2;
    d.flash_kib = 256; // K2 -> 2 KiB page, 256 KiB extent.
    Chip::from_descriptor(d)
}

fn r(bus: &RegisterFile, addr: u32) -> u32 {
    bus.word(addr)
}

fn rh(bus: &RegisterFile, addr: u32) -> u16 {
    bus.half(addr)
}

fn seed_fmc_sentinel(bus: &mut RegisterFile) {
    bus.store(KEY_A, SENTINEL);
    bus.store(STAT_A, SENTINEL);
    bus.store(CTL_A, SENTINEL);
    bus.store(ADDR_A, SENTINEL);
}

fn assert_fmc_untouched(bus: &RegisterFile) {
    assert_eq!(r(bus, KEY_A), SENTINEL, "KEY untouched (zero register writes)");
    assert_eq!(r(bus, STAT_A), SENTINEL, "STAT untouched (zero register writes)");
    assert_eq!(r(bus, CTL_A), SENTINEL, "CTL untouched (zero register writes)");
    assert_eq!(r(bus, ADDR_A), SENTINEL, "ADDR untouched (zero register writes)");
}

fn seed_erased(bus: &mut RegisterFile, addr: u32, len: u32) {
    let mut off = 0;
    while off < len {
        bus.store_half(addr + off, 0xFFFF);
        off += 2;
    }
}

#[test]
fn page_size_and_flash_size_reflect_the_descriptor() {
    let k1 = Fmc::new(&chip_k1());
    assert_eq!(k1.page_size(), 1024, "K1 page = 1 KiB");
    assert_eq!(k1.flash_size_bytes(), 65536, "K1 extent = 64 KiB");

    let k2 = Fmc::new(&chip_k2());
    assert_eq!(k2.page_size(), 2048, "K2 page = 2 KiB");
    assert_eq!(k2.flash_size_bytes(), 262144, "K2 extent = 256 KiB");
}

fn check_erase_sequence(bus: &mut RegisterFile, chip: &Chip) {
    let mut fmc = Fmc::new(chip);
    let page = chip.flash_page().bytes();
    let addr = FLASH_BASE;
    bus.store(CTL_A, CTL_LK);

    assert_eq!(fmc.erase_page(bus, addr), Ok(()));

    assert_eq!(r(bus, KEY_A), KEY2, "KEY = KEY2 (unlock double-write ran)");
    assert_eq!(r(bus, ADDR_A), addr, "ADDR = page address");
    assert_eq!(
        r(bus, STAT_A) & STAT_CLEAR,
        0,
        "STAT error/end flags cleared after erase"
    );
    assert_eq!(r(bus, CTL_A) & (CTL_PER | CTL_START), 0, "PER + START cleared");
    assert_eq!(rh(bus, addr), 0xFFFF, "first halfword erased");
    assert_eq!(rh(bus, addr + page - 2), 0xFFFF, "last halfword erased");
}

#[test]
fn erase_emits_the_sequence_k1() {
    let mut bus = seed_reset();
    check_erase_sequence(&mut bus, &chip_k1());
}

#[test]
fn erase_emits_the_sequence_k2() {
    let mut bus = seed_reset();
    check_erase_sequence(&mut bus, &chip_k2());
}

#[test]
fn erase_misaligned_addr_is_badarg_zero_writes() {
    for chip in [chip_k1(), chip_k2()] {
        let mut bus = seed_reset();
        seed_fmc_sentinel(&mut bus);
        let mut fmc = Fmc::new(&chip);
        let bad = FLASH_BASE + 2;
        assert_eq!(fmc.erase_page(&mut bus, bad), Err(FmcError::BadArg));
        assert_fmc_untouched(&bus);
    }
}

#[test]
fn erase_out_of_flash_is_badarg_zero_writes() {
    let mut bus = seed_reset();
    seed_fmc_sentinel(&mut bus);
    let mut k1 = Fmc::new(&chip_k1());
    assert_eq!(k1.erase_page(&mut bus, FLASH_BASE + 0x1_0000), Err(FmcError::BadArg));
    assert_fmc_untouched(&bus);

    bus = seed_reset();
    seed_fmc_sentinel(&mut bus);
    assert_eq!(k1.erase_page(&mut bus, FLASH_BASE - 1024), Err(FmcError::BadArg));
    assert_fmc_untouched(&bus);

    bus = seed_reset();
    seed_fmc_sentinel(&mut bus);
    let mut k2 = Fmc::new(&chip_k2());
    assert_eq!(k2.erase_page(&mut bus, FLASH_BASE + 0x4_0000), Err(FmcError::BadArg));
    assert_fmc_untouched(&bus);
}

fn check_program_into_erased(bus: &mut RegisterFile, chip: &Chip) {
    let mut fmc = Fmc::new(chip);
    let addr = FLASH_BASE;
    bus.store(CTL_A, CTL_LK); // LK set so unlock fires.
    seed_erased(bus, addr, 8);

    let bytes = [0x11u8, 0x22, 0x33, 0x44, 0x55, 0x66, 0x77, 0x88];
    assert_eq!(fmc.program(bus, addr, &bytes), Ok(()));

    assert_eq!(rh(bus, addr), 0x2211);
    assert_eq!(rh(bus, addr + 2), 0x4433);
    assert_eq!(rh(bus, addr + 4), 0x6655);
    assert_eq!(rh(bus, addr + 6), 0x8877);
    assert_eq!(r(bus, CTL_A) & CTL_PG, 0, "PG cleared after program");
    assert_eq!(r(bus, STAT_A) & STAT_CLEAR, 0, "STAT cleared, no sticky error");
}

#[test]
fn program_into_erased_k1() {
    let mut bus = seed_reset();
    check_program_into_erased(&mut bus, &chip_k1());
}

#[test]
fn program_into_erased_k2() {
    let mut bus = seed_reset();
    check_program_into_erased(&mut bus, &chip_k2());
}

#[test]
fn program_odd_addr_is_badarg_zero_writes() {
    for chip in [chip_k1(), chip_k2()] {
        let mut bus = seed_reset();
        seed_fmc_sentinel(&mut bus);
        let mut fmc = Fmc::new(&chip);
        assert_eq!(
            fmc.program(&mut bus, FLASH_BASE + 1, &[0xAA, 0xBB]),
            Err(FmcError::BadArg)
        );
        assert_fmc_untouched(&bus);
    }
}

#[test]
fn program_odd_len_is_badarg_zero_writes() {
    for chip in [chip_k1(), chip_k2()] {
        let mut bus = seed_reset();
        seed_fmc_sentinel(&mut bus);
        let mut fmc = Fmc::new(&chip);
        assert_eq!(
            fmc.program(&mut bus, FLASH_BASE, &[0xAA, 0xBB, 0xCC]),
            Err(FmcError::BadArg)
        );
        assert_fmc_untouched(&bus);
    }
}

#[test]
fn program_end_straddle_is_badarg_zero_writes() {
    let mut bus = seed_reset();
    seed_fmc_sentinel(&mut bus);
    let mut k1 = Fmc::new(&chip_k1());
    let last_hw = FLASH_BASE + 0x1_0000 - 2;
    assert_eq!(k1.program(&mut bus, last_hw, &[0, 0, 0, 0]), Err(FmcError::BadArg));
    assert_fmc_untouched(&bus);
}

#[test]
fn program_into_non_erased_is_not_erased_zero_writes() {
    for chip in [chip_k1(), chip_k2()] {
        let mut bus = seed_reset();
        let mut fmc = Fmc::new(&chip);
        let addr = FLASH_BASE;
        seed_erased(&mut bus, addr, 4);
        bus.store_half(addr + 2, 0x1234); // second halfword spent.
        seed_fmc_sentinel(&mut bus);
        assert_eq!(
            fmc.program(&mut bus, addr, &[0xAA, 0xBB, 0xCC, 0xDD]),
            Err(FmcError::NotErased)
        );
        assert_fmc_untouched(&bus);
        assert_eq!(rh(&bus, addr + 2), 0x1234, "flash unchanged on NotErased");
    }
}

#[test]
fn program_empty_slice_is_ok_noop() {
    for chip in [chip_k1(), chip_k2()] {
        let mut bus = seed_reset();
        seed_fmc_sentinel(&mut bus);
        let mut fmc = Fmc::new(&chip);
        assert_eq!(fmc.program(&mut bus, FLASH_BASE, &[]), Ok(()));
        assert_fmc_untouched(&bus);
    }
}

#[test]
fn mock_store_models_write_once_reprogram_refused() {
    let mut bus = seed_reset();
    let chip = chip_k1();
    let fmc = Fmc::new(&chip);
    let addr = FLASH_BASE;
    bus.store(CTL_A, CTL_LK);
    seed_erased(&mut bus, addr, 2);
    let st1 = fmc.program_host(&mut bus, addr, &[0xAA, 0xAA]);
    assert_eq!(st1 & STAT_PGERR, 0, "first program into erased: no PGERR");
    assert_eq!(rh(&bus, addr), 0xAAAA, "first program took");
    let st2 = fmc.program_host(&mut bus, addr, &[0x55, 0x55]);
    assert_ne!(
        st2 & STAT_PGERR,
        0,
        "re-program of a written halfword sets PGERR"
    );
    assert_eq!(
        rh(&bus, addr),
        0xAAAA,
        "re-program refused: content unchanged (not ANDed)"
    );
}

#[test]
fn decode_maps_status_flags() {
    assert_eq!(decode(0), Ok(()));
    assert_eq!(decode(STAT_WPERR), Err(FmcError::WriteProtect));
    assert_eq!(decode(STAT_PGERR), Err(FmcError::ProgramError));
    assert_eq!(decode(STAT_TIMEOUT), Err(FmcError::Timeout));
    assert_eq!(decode(STAT_WPERR | STAT_PGERR), Err(FmcError::WriteProtect));
    assert_eq!(
        decode(STAT_TIMEOUT | STAT_WPERR | STAT_PGERR),
        Err(FmcError::Timeout)
    );
    assert_eq!(decode(STAT_ENDF), Ok(()));
}

#[test]
fn program_surfaces_wperr_as_write_protect() {
    let mut bus = seed_reset();
    let chip = chip_k1();
    let mut fmc = Fmc::new(&chip);
    let addr = FLASH_BASE;
    bus.store(CTL_A, CTL_LK);
    seed_erased(&mut bus, addr, 2);
    bus.store(STAT_A, STAT_WPERR);
    assert_eq!(
        fmc.program(&mut bus, addr, &[0x12, 0x34]),
        Err(FmcError::WriteProtect)
    );
}
