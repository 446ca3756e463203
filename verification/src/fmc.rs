//! The flash memory controller: erasing pages and programming halfwords.
//!
//! Flash is read by plain loads. It is programmed in halfwords, each of which must be erased
//! (`0xFFFF`) and can be written once: writing it again is refused and leaves it unchanged. It is
//! erased in whole pages. A request outside the flash, or not aligned to these units, is refused
//! before anything is touched, and so is programming over a halfword that is not erased.
//!
//! In a flat register space there is no controller, and the driver plays its part: an erase fills
//! the page, and a halfword that is not erased keeps its value and raises the program error.

use vstd::prelude::*;

use crate::chip::Chip;
use crate::descriptor::PageSize;
use crate::error::FmcError;
use crate::bits;
use crate::trace;
use crate::reg::{self, Access, Bus, Reg16, Reg32, Step, Want};

verus! {

/// The controller is at the same address on every part.
pub const FMC_BASE: u32 = 0x4002_2000;

pub const KEY: u32 = 0x04;

pub const STAT: u32 = 0x0C;

pub const CTL: u32 = 0x10;

pub const ADDR: u32 = 0x14;

/// The two keys that unlock the controller, in order.
pub const KEY1: u32 = 0x4567_0123;

pub const KEY2: u32 = 0xCDEF_89AB;

/// Program.
pub const CTL_PG: u32 = 0x01;

/// Erase a page.
pub const CTL_PER: u32 = 0x02;

/// Start the erase.
pub const CTL_START: u32 = 0x40;

/// A page erase, started.
pub const CTL_PER_START: u32 = 0x42;

/// Locked.
pub const CTL_LK: u32 = 0x80;

pub const STAT_BUSY: u32 = 0x01;

/// Not a flag of the controller: set in a status whose wait gave up.
pub const STAT_TIMEOUT: u32 = 0x02;

/// The halfword was not erased.
pub const STAT_PGERR: u32 = 0x04;

/// The page is write-protected.
pub const STAT_WPERR: u32 = 0x10;

/// The operation ended.
pub const STAT_ENDF: u32 = 0x20;

/// The flags that stay set until cleared: end, write protection, program error.
pub const STAT_CLEAR: u32 = 0x34;

/// Where flash begins.
pub const FLASH_BASE: u32 = 0x0800_0000;

/// An erased halfword.
pub const ERASED: u16 = 0xFFFF;

/// Polls of the busy flag before a wait gives up.
pub const FMC_BUSY_TIMEOUT: u32 = 100_000_000;

/// The largest flash a part can report, in bytes.
pub const FLASH_MAX: u32 = 0x03FF_FC00;

/// What a status stands for. A wait that gave up outranks write protection, which outranks a
/// program error; the end flag is no error.
pub open spec fn outcome(stat: u32) -> Result<(), FmcError> {
    if stat & STAT_TIMEOUT != 0 {
        Err(FmcError::Timeout)
    } else if stat & STAT_WPERR != 0 {
        Err(FmcError::WriteProtect)
    } else if stat & STAT_PGERR != 0 {
        Err(FmcError::ProgramError)
    } else {
        Ok(())
    }
}

/// What a status stands for.
pub fn decode(stat: u32) -> (r: Result<(), FmcError>)
    ensures
        r == outcome(stat),
{
    if stat & STAT_TIMEOUT != 0 {
        return Err(FmcError::Timeout);
    }
    if stat & STAT_WPERR != 0 {
        return Err(FmcError::WriteProtect);
    }
    if stat & STAT_PGERR != 0 {
        return Err(FmcError::ProgramError);
    }
    Ok(())
}

// --- what goes over the bus -------------------------------------------------------------------

/// A store to a register of the controller.
pub open spec fn store_step(offset: u32, value: u32) -> Step {
    Step::Store { addr: reg::at(FMC_BASE, offset), value }
}

/// Looking at the control register, which reads `ctl`, and the two keys if it is locked.
pub open spec fn unlock_script(ctl: u32) -> Seq<Step> {
    let looked = Seq::empty().push(Step::Load { addr: reg::at(FMC_BASE, CTL), value: ctl });
    if ctl & CTL_LK != 0 {
        looked.push(store_step(KEY, KEY1)).push(store_step(KEY, KEY2))
    } else {
        looked
    }
}

/// Unlocking, whatever the control register reads.
pub open spec fn unlocked<B: Bus>(b0: B, b1: B) -> bool {
    exists|ctl: u32| reg::ran(b0, b1, #[trigger] unlock_script(ctl))
}

/// Waiting while the controller is busy.
pub open spec fn busy_step() -> Step {
    Step::Settle {
        addr: reg::at(FMC_BASE, STAT),
        want: Want::Low { mask: STAT_BUSY },
        limit: FMC_BUSY_TIMEOUT as u64,
    }
}

/// Clearing the flags. The controller clears a flag that is written one; in a flat space the bits
/// themselves are cleared.
pub open spec fn ack_step(flat: bool) -> Step {
    if flat {
        Step::Modify { addr: reg::at(FMC_BASE, STAT), mask: STAT_CLEAR, bits: 0 }
    } else {
        store_step(STAT, STAT_CLEAR)
    }
}

/// The status a wait ends with, given its last load.
pub open spec fn status(last: u32) -> u32 {
    if last & STAT_BUSY == 0 {
        last
    } else {
        last | STAT_TIMEOUT
    }
}

/// A wait for the controller that ends with the status `stat`, and the clearing of the flags.
pub open spec fn settled<B: Bus>(b0: B, b1: B, flat: bool, stat: u32) -> bool {
    exists|k: B|
        {
            &&& reg::did(b0, k, busy_step())
            &&& #[trigger] reg::did(k, b1, ack_step(flat))
            &&& stat == status(reg::last_load(k.log()))
        }
}

/// Filling the first `n` halfwords from `addr` with the erased value.
pub open spec fn fill_script(addr: u32, n: nat) -> Seq<Step>
    decreases n,
{
    if n == 0 {
        Seq::empty()
    } else {
        fill_script(addr, (n - 1) as nat).push(
            Step::StoreHalf { addr: (addr + 2 * (n - 1)) as u32, value: ERASED },
        )
    }
}

/// The page erase command; in a flat space the page is filled as well.
pub open spec fn erase_script(flat: bool, page_size: u32, addr: u32) -> Seq<Step> {
    let command = Seq::empty().push(store_step(CTL, CTL_PER)).push(store_step(ADDR, addr)).push(
        store_step(CTL, CTL_PER_START),
    );
    if flat {
        command + fill_script(addr, (page_size / 2) as nat)
    } else {
        command
    }
}

/// The erase of the page at `addr`, which ends with the status `stat`.
pub open spec fn erased<B: Bus>(b0: B, b1: B, page_size: u32, addr: u32, stat: u32) -> bool {
    exists|u: B, k: B, m: B|
        {
            &&& unlocked(b0, u)
            &&& #[trigger] reg::ran(u, k, erase_script(b0.flat(), page_size, addr))
            &&& settled(k, m, b0.flat(), stat)
            &&& #[trigger] reg::did(m, b1, store_step(CTL, 0))
        }
}

/// Two bytes as a halfword, the first the lower.
pub open spec fn halfword(lo: u8, hi: u8) -> u16 {
    lo as u16 | ((hi as u16) << 8)
}

/// The halfword in place `i` of some bytes.
pub open spec fn halfword_at(bytes: Seq<u8>, i: int) -> u16 {
    halfword(bytes[2 * i], bytes[2 * i + 1])
}

/// Handing a halfword to the controller. In a flat space, where `held` is what the cell holds, a
/// cell that is not erased is left alone and the program error raised.
pub open spec fn put_script(flat: bool, addr: u32, hw: u16, held: u16) -> Seq<Step> {
    if !flat {
        Seq::empty().push(Step::StoreHalf { addr, value: hw })
    } else if held != ERASED {
        Seq::empty().push(Step::LoadHalf { addr, value: held }).push(
            Step::Modify { addr: reg::at(FMC_BASE, STAT), mask: STAT_PGERR, bits: STAT_PGERR },
        )
    } else {
        Seq::empty().push(Step::LoadHalf { addr, value: held }).push(
            Step::StoreHalf { addr, value: hw },
        )
    }
}

/// The programming of one halfword, which ends with the status `stat`.
pub open spec fn put<B: Bus>(b0: B, b1: B, addr: u32, hw: u16, stat: u32) -> bool {
    exists|k: B, held: u16|
        {
            &&& reg::ran(b0, k, #[trigger] put_script(b0.flat(), addr, hw, held))
            &&& #[trigger] settled(k, b1, b0.flat(), stat)
        }
}

/// The flags gathered before and those of one more status.
pub open spec fn gathers(worst: u32, before: u32, stat: u32) -> bool {
    worst == before | stat
}

/// The programming of the first `n` halfwords, one after the other; `worst` gathers the flags of
/// every status.
pub open spec fn progressed<B: Bus>(
    b0: B,
    b1: B,
    addr: u32,
    bytes: Seq<u8>,
    n: nat,
    worst: u32,
) -> bool
    decreases n,
{
    if n == 0 {
        b0 == b1 && worst == 0
    } else {
        exists|m: B, before: u32, stat: u32|
            {
                &&& progressed(b0, m, addr, bytes, (n - 1) as nat, before)
                &&& #[trigger] put(
                    m,
                    b1,
                    (addr + 2 * (n - 1)) as u32,
                    halfword_at(bytes, n - 1),
                    stat,
                )
                &&& #[trigger] gathers(worst, before, stat)
            }
    }
}

proof fn progress<B: Bus>(
    b0: B,
    m: B,
    b1: B,
    addr: u32,
    bytes: Seq<u8>,
    n: nat,
    before: u32,
    stat: u32,
)
    requires
        progressed(b0, m, addr, bytes, n, before),
        put(m, b1, (addr + 2 * n) as u32, halfword_at(bytes, n as int), stat),
    ensures
        progressed(b0, b1, addr, bytes, n + 1, before | stat),
{
    let next: nat = n + 1;
    assert((next - 1) as nat == n);
    assert(put(m, b1, (addr + 2 * (next - 1)) as u32, halfword_at(bytes, next - 1), stat));
    assert(gathers(before | stat, before, stat));
}

/// The programming of some bytes at `addr`, which ends with the gathered status `worst`.
pub open spec fn programmed<B: Bus>(b0: B, b1: B, addr: u32, bytes: Seq<u8>, worst: u32) -> bool {
    exists|u: B, v: B, m: B|
        {
            &&& unlocked(b0, u)
            &&& #[trigger] reg::did(u, v, store_step(CTL, CTL_PG))
            &&& progressed(v, m, addr, bytes, bytes.len() / 2, worst)
            &&& #[trigger] reg::did(m, b1, store_step(CTL, 0))
        }
}

/// Finding the first `n` halfwords from `addr` erased.
pub open spec fn scan_script(addr: u32, n: nat) -> Seq<Step>
    decreases n,
{
    if n == 0 {
        Seq::empty()
    } else {
        scan_script(addr, (n - 1) as nat).push(
            Step::LoadHalf { addr: (addr + 2 * (n - 1)) as u32, value: ERASED },
        )
    }
}

/// Finding the halfword in place `n` to hold `held`, after `n` erased ones.
pub open spec fn spent_script(addr: u32, n: nat, held: u16) -> Seq<Step> {
    scan_script(addr, n).push(Step::LoadHalf { addr: (addr + 2 * n) as u32, value: held })
}

// --- the driver -------------------------------------------------------------------------------

/// The flash of a part.
#[derive(Debug, Clone, Copy, PartialEq, Eq, Structural)]
pub struct Fmc {
    page_size: u32,
    flash_extent: u32,
}

impl Fmc {
    /// The size of a page in bytes.
    pub closed spec fn page(self) -> u32 {
        self.page_size
    }

    /// The size of the flash in bytes.
    pub closed spec fn extent(self) -> u32 {
        self.flash_extent
    }

    /// A page is one or two KiB, and the flash within what a part can report.
    #[verifier::type_invariant]
    pub open spec fn wf(self) -> bool {
        &&& self.page() == 1024 || self.page() == 2048
        &&& self.extent() <= FLASH_MAX
    }

    /// Whether `span` bytes from `addr` lie in the flash.
    pub open spec fn holds(self, addr: u32, span: int) -> bool {
        FLASH_BASE <= addr && addr + span <= FLASH_BASE + self.extent()
    }

    /// Whether there is a page at `addr`.
    pub open spec fn page_at(self, addr: u32) -> bool {
        self.holds(addr, self.page() as int) && (addr - FLASH_BASE) % self.page() as int == 0
    }

    /// Whether some bytes can be programmed at `addr`: whole halfwords, in the flash.
    pub open spec fn span_at(self, addr: u32, len: int) -> bool {
        addr % 2 == 0 && len % 2 == 0 && self.holds(addr, len)
    }

    /// What erasing a page comes to.
    pub open spec fn erasure<B: Bus>(
        self,
        b0: B,
        b1: B,
        addr: u32,
        r: Result<(), FmcError>,
    ) -> bool {
        if !self.page_at(addr) {
            b1 == b0 && r == Err::<(), _>(FmcError::BadArg)
        } else {
            exists|stat: u32|
                #[trigger] erased(b0, b1, self.page(), addr, stat) && r == outcome(stat)
        }
    }

    /// What programming some bytes comes to. No bytes are programmed by doing nothing.
    pub open spec fn programming<B: Bus>(
        self,
        b0: B,
        b1: B,
        addr: u32,
        bytes: Seq<u8>,
        r: Result<(), FmcError>,
    ) -> bool {
        if bytes.len() == 0 {
            b1 == b0 && r is Ok
        } else if !self.span_at(addr, bytes.len() as int) {
            b1 == b0 && r == Err::<(), _>(FmcError::BadArg)
        } else {
            ||| r == Err::<(), _>(FmcError::NotErased) && exists|n: nat, held: u16|
                {
                    &&& n < bytes.len() / 2
                    &&& held != ERASED
                    &&& reg::ran(b0, b1, #[trigger] spent_script(addr, n, held))
                }
            ||| exists|m: B, worst: u32|
                {
                    &&& reg::ran(b0, m, scan_script(addr, bytes.len() / 2))
                    &&& #[trigger] programmed(m, b1, addr, bytes, worst)
                    &&& r == outcome(worst)
                }
        }
    }

    /// The flash of a part, as its descriptor gives it.
    pub fn new(chip: &Chip) -> (r: Fmc)
        ensures
            r.wf(),
            r.page() == (match chip.desc().flash_page {
                PageSize::K1 => 1024u32,
                PageSize::K2 => 2048u32,
            }),
            r.extent() == chip.desc().flash_kib * 1024,
    {
        Fmc { page_size: chip.flash_page().bytes(), flash_extent: chip.flash_size_bytes() }
    }

    /// The size of a page in bytes.
    pub fn page_size(&self) -> (r: u32)
        ensures
            r == self.page(),
    {
        self.page_size
    }

    /// The size of the flash in bytes.
    pub fn flash_size_bytes(&self) -> (r: u32)
        ensures
            r == self.extent(),
    {
        self.flash_extent
    }

    /// Erase the page at `addr`.
    pub fn erase_page<B: Bus>(&mut self, bus: &mut B, addr: u32) -> (r: Result<(), FmcError>)
        ensures
            *final(self) == *old(self),
            old(self).erasure(*old(bus), *final(bus), addr, r),
    {
        proof {
            use_type_invariant(&*self);
        }
        if !self.in_flash(addr, self.page_size as u64) || (addr - FLASH_BASE) % self.page_size
            != 0 {
            return Err(FmcError::BadArg);
        }
        let stat: u32 = self.run_erase(bus, addr);
        decode(stat)
    }

    /// Program bytes at `addr`.
    pub fn program<B: Bus>(&mut self, bus: &mut B, addr: u32, bytes: &[u8]) -> (r: Result<
        (),
        FmcError,
    >)
        ensures
            *final(self) == *old(self),
            old(self).programming(*old(bus), *final(bus), addr, bytes@, r),
    {
        proof {
            use_type_invariant(&*self);
        }
        let len: usize = bytes.len();
        if len == 0 {
            return Ok(());
        }
        if addr % 2 != 0 || len % 2 != 0 || !self.in_flash(addr, len as u64) {
            return Err(FmcError::BadArg);
        }
        let ghost b0 = *bus;
        let n: u32 = (len / 2) as u32;
        let mut i: u32 = 0;
        proof {
            reg::ran_nothing(*bus);
        }
        while i < n
            invariant
                b0 == *old(bus),
                *self == *old(self),
                self.wf(),
                len == bytes@.len(),
                len > 0,
                self.span_at(addr, len as int),
                n == len / 2,
                i <= n,
                reg::ran(b0, *bus, scan_script(addr, i as nat)),
            decreases n - i,
        {
            broadcast use reg::ran_then;

            let at: u32 = addr + 2 * i;
            let held: u16 = Reg16::new(at, 0).read(bus);
            if held != ERASED {
                assert(reg::ran(b0, *bus, spent_script(addr, i as nat, held)));
                return Err(FmcError::NotErased);
            }
            assert(scan_script(addr, (i + 1) as nat) == scan_script(addr, i as nat).push(
                Step::LoadHalf { addr: at, value: ERASED },
            ));
            i = i + 1;
        }
        let ghost m = *bus;
        let stat: u32 = self.run_program(bus, addr, bytes);
        assert(programmed(m, *bus, addr, bytes@, stat));
        decode(stat)
    }

    fn in_flash(&self, addr: u32, span: u64) -> (r: bool)
        requires
            self.wf(),
        ensures
            r == self.holds(addr, span as int),
    {
        if addr < FLASH_BASE {
            return false;
        }
        let room: u32 = FLASH_BASE + self.flash_extent;
        addr <= room && span <= (room - addr) as u64
    }

    fn run_erase<B: Bus>(&self, bus: &mut B, addr: u32) -> (stat: u32)
        requires
            self.wf(),
            self.page_at(addr),
        ensures
            erased(*old(bus), *final(bus), self.page(), addr, stat),
    {
        if bus.is_flat() {
            self.erase_host(bus, addr)
        } else {
            self.erase_ram(bus, addr)
        }
    }

    fn run_program<B: Bus>(&self, bus: &mut B, addr: u32, bytes: &[u8]) -> (worst: u32)
        requires
            bytes@.len() % 2 == 0,
            addr + bytes@.len() <= u32::MAX,
        ensures
            programmed(*old(bus), *final(bus), addr, bytes@, worst),
    {
        if bus.is_flat() {
            self.program_host(bus, addr, bytes)
        } else {
            self.program_ram(bus, addr, bytes)
        }
    }

    fn unlock<B: Bus>(&self, bus: &mut B)
        ensures
            unlocked(*old(bus), *final(bus)),
            final(bus).flat() == old(bus).flat(),
    {
        broadcast use reg::ran_then;

        let ghost b0 = *bus;
        proof {
            reg::ran_nothing(b0);
        }
        let ctl: u32 = self.reg(CTL).read(bus);
        if ctl & CTL_LK != 0 {
            self.reg(KEY).write(bus, KEY1);
            self.reg(KEY).write(bus, KEY2);
        }
        assert(reg::ran(b0, *bus, unlock_script(ctl)));
    }

    fn command_erase<B: Bus>(&self, bus: &mut B, addr: u32)
        ensures
            reg::ran(*old(bus), *final(bus), erase_script(false, self.page(), addr)),
    {
        broadcast use reg::ran_then;

        proof {
            reg::ran_nothing(*bus);
        }
        self.reg(CTL).write(bus, CTL_PER);
        self.reg(ADDR).write(bus, addr);
        self.reg(CTL).write(bus, CTL_PER_START);
    }

    /// Wait for the controller; the status it ends with.
    fn wait<B: Bus>(&self, bus: &mut B) -> (stat: u32)
        ensures
            settled(*old(bus), *final(bus), old(bus).flat(), stat),
            final(bus).flat() == old(bus).flat(),
    {
        let flat: bool = bus.is_flat();
        let ghost b0 = *bus;
        let polled: Result<u32, u32> = self.reg(STAT).poll(
            bus,
            Want::Low { mask: STAT_BUSY },
            0,
            FMC_BUSY_TIMEOUT as u64,
        );
        let ghost k = *bus;
        proof {
            let v = reg::last_load(k.log());
            bits::no_bits(v);
            assert(reg::did(b0, k, busy_step()));
        }
        let stat: u32 = match polled {
            Ok(st) => st,
            Err(st) => st | STAT_TIMEOUT,
        };
        if flat {
            self.reg(STAT).modify(bus, STAT_CLEAR, 0);
        } else {
            self.reg(STAT).write(bus, STAT_CLEAR);
        }
        assert(reg::did(k, *bus, ack_step(flat)));
        stat
    }

    fn erase_ram<B: Bus>(&self, bus: &mut B, addr: u32) -> (stat: u32)
        requires
            !old(bus).flat(),
        ensures
            erased(*old(bus), *final(bus), self.page(), addr, stat),
    {
        let ghost b0 = *bus;
        self.unlock(bus);
        let ghost u = *bus;
        self.command_erase(bus, addr);
        let ghost k = *bus;
        let stat: u32 = self.wait(bus);
        let ghost m = *bus;
        self.reg(CTL).write(bus, 0);
        proof {
            assert(reg::ran(u, k, erase_script(b0.flat(), self.page_size, addr)));
            assert(reg::did(m, *bus, store_step(CTL, 0)));
        }
        stat
    }

    fn erase_host<B: Bus>(&self, bus: &mut B, addr: u32) -> (stat: u32)
        requires
            old(bus).flat(),
            addr + self.page() <= u32::MAX,
            self.page() % 2 == 0,
        ensures
            erased(*old(bus), *final(bus), self.page(), addr, stat),
    {
        let ghost b0 = *bus;
        self.unlock(bus);
        let ghost u = *bus;
        self.command_erase(bus, addr);
        let ghost c = *bus;
        let n: u32 = self.page_size / 2;
        let mut i: u32 = 0;
        proof {
            reg::ran_nothing(*bus);
        }
        while i < n
            invariant
                addr + self.page_size <= u32::MAX,
                n == self.page_size / 2,
                i <= n,
                c.flat(),
                reg::ran(c, *bus, fill_script(addr, i as nat)),
            decreases n - i,
        {
            broadcast use reg::ran_then;

            let at: u32 = addr + 2 * i;
            Reg16::new(at, 0).write(bus, ERASED);
            assert(fill_script(addr, (i + 1) as nat) == fill_script(addr, i as nat).push(
                Step::StoreHalf { addr: at, value: ERASED },
            ));
            i = i + 1;
        }
        let ghost k = *bus;
        proof {
            reg::ran_append(
                u,
                c,
                k,
                erase_script(false, self.page_size, addr),
                fill_script(addr, n as nat),
            );
        }
        let stat: u32 = self.wait(bus);
        let ghost m = *bus;
        self.reg(CTL).write(bus, 0);
        proof {
            assert(reg::ran(u, k, erase_script(b0.flat(), self.page_size, addr)));
            assert(reg::did(m, *bus, store_step(CTL, 0)));
        }
        stat
    }

    fn program_ram<B: Bus>(&self, bus: &mut B, addr: u32, bytes: &[u8]) -> (worst: u32)
        requires
            !old(bus).flat(),
            bytes@.len() % 2 == 0,
            addr + bytes@.len() <= u32::MAX,
        ensures
            programmed(*old(bus), *final(bus), addr, bytes@, worst),
    {
        let ghost b0 = *bus;
        self.unlock(bus);
        let ghost u = *bus;
        self.reg(CTL).write(bus, CTL_PG);
        let ghost v = *bus;
        let n: u32 = (bytes.len() / 2) as u32;
        let mut worst: u32 = 0;
        let mut i: u32 = 0;
        while i < n
            invariant
                n == bytes@.len() / 2,
                bytes@.len() % 2 == 0,
                addr + bytes@.len() <= u32::MAX,
                i <= n,
                !bus.flat(),
                progressed(v, *bus, addr, bytes@, i as nat, worst),
            decreases n - i,
        {
            broadcast use reg::ran_then;

            let ghost p = *bus;
            let at: u32 = addr + 2 * i;
            let hw: u16 = bytes[2 * i as usize] as u16 | ((bytes[2 * i as usize + 1] as u16) << 8);
            proof {
                reg::ran_nothing(p);
            }
            Reg16::new(at, 0).write(bus, hw);
            let ghost k = *bus;
            assert(reg::ran(p, k, put_script(false, at, hw, 0)));
            let stat: u32 = self.wait(bus);
            proof {
                assert(settled(k, *bus, p.flat(), stat));
                assert(put(p, *bus, at, halfword_at(bytes@, i as int), stat));
                progress(v, p, *bus, addr, bytes@, i as nat, worst, stat);
            }
            worst = worst | stat;
            i = i + 1;
        }
        let ghost m = *bus;
        self.reg(CTL).write(bus, 0);
        proof {
            assert(reg::did(u, v, store_step(CTL, CTL_PG)));
            assert(reg::did(m, *bus, store_step(CTL, 0)));
        }
        worst
    }

    /// Program halfwords in a flat space, playing the controller's part.
    pub fn program_host<B: Bus>(&self, bus: &mut B, addr: u32, bytes: &[u8]) -> (worst: u32)
        requires
            old(bus).flat(),
            bytes@.len() % 2 == 0,
            addr + bytes@.len() <= u32::MAX,
        ensures
            programmed(*old(bus), *final(bus), addr, bytes@, worst),
    {
        let ghost b0 = *bus;
        self.unlock(bus);
        let ghost u = *bus;
        self.reg(CTL).write(bus, CTL_PG);
        let ghost v = *bus;
        let n: u32 = (bytes.len() / 2) as u32;
        let mut worst: u32 = 0;
        let mut i: u32 = 0;
        while i < n
            invariant
                n == bytes@.len() / 2,
                bytes@.len() % 2 == 0,
                addr + bytes@.len() <= u32::MAX,
                i <= n,
                bus.flat(),
                progressed(v, *bus, addr, bytes@, i as nat, worst),
            decreases n - i,
        {
            broadcast use reg::ran_then;

            let ghost p = *bus;
            let at: u32 = addr + 2 * i;
            let hw: u16 = bytes[2 * i as usize] as u16 | ((bytes[2 * i as usize + 1] as u16) << 8);
            proof {
                reg::ran_nothing(p);
            }
            let cell = Reg16::new(at, 0);
            let held: u16 = cell.read(bus);
            if held != ERASED {
                self.reg(STAT).modify(bus, STAT_PGERR, STAT_PGERR);
            } else {
                cell.write(bus, hw);
            }
            let ghost k = *bus;
            assert(reg::ran(p, k, put_script(true, at, hw, held)));
            let stat: u32 = self.wait(bus);
            proof {
                assert(settled(k, *bus, p.flat(), stat));
                assert(put(p, *bus, at, halfword_at(bytes@, i as int), stat));
                progress(v, p, *bus, addr, bytes@, i as nat, worst, stat);
            }
            worst = worst | stat;
            i = i + 1;
        }
        let ghost m = *bus;
        self.reg(CTL).write(bus, 0);
        proof {
            assert(reg::did(u, v, store_step(CTL, CTL_PG)));
            assert(reg::did(m, *bus, store_step(CTL, 0)));
        }
        worst
    }

    fn reg(&self, offset: u32) -> (r: Reg32)
        ensures
            r.addr == reg::at(FMC_BASE, offset),
    {
        Reg32::new(FMC_BASE, offset)
    }
}

// --- laws -------------------------------------------------------------------------------------

/// Whether `x` is one of the `n` halfwords from `addr`.
pub open spec fn in_span(addr: u32, n: nat, x: u32) -> bool {
    addr <= x < addr + 2 * n && (x - addr) % 2 == 0
}

/// What the halfword at `x` holds.
pub open spec fn cell<B: Bus>(b: B, x: u32) -> u16 {
    reg::recall_half(b.log(), x)
}

/// Whether the `n` halfwords from `addr` are erased.
pub open spec fn blank<B: Bus>(b: B, addr: u32, n: nat) -> bool {
    forall|x: u32| in_span(addr, n, x) ==> #[trigger] cell(b, x) == 0xFFFF
}

/// Whether the status register shows neither an operation in progress nor an error.
pub open spec fn quiet<B: Bus>(b: B) -> bool {
    reg::recall(b.log(), reg::at(FMC_BASE, STAT)) & 0x17 == 0
}

proof fn span_grows(addr: u32, n: nat, x: u32)
    requires
        n > 0,
        addr + 2 * n <= u32::MAX,
    ensures
        in_span(addr, n, x) == (in_span(addr, (n - 1) as nat, x) || x == addr + 2 * (n - 1)),
        x == addr + 2 * (n - 1) ==> (x - addr) / 2 == n - 1 && !in_span(addr, (n - 1) as nat, x),
{
}

proof fn page_is_even(page: u32, size: u32)
    requires
        page >= FLASH_BASE,
        size == 1024 || size == 2048,
        (page - FLASH_BASE) % size as int == 0,
    ensures
        page % 2 == 0,
{
    let d: int = page - FLASH_BASE;
    if size == 1024 {
        assert(d % 1024 == 0);
        assert(page == 2 * (0x0400_0000 + 512 * (d / 1024)));
    } else {
        assert(d % 2048 == 0);
        assert(page == 2 * (0x0400_0000 + 1024 * (d / 2048)));
    }
}

proof fn span_within(page: u32, half: nat, addr: u32, n: nat, x: u32)
    requires
        page % 2 == 0,
        addr % 2 == 0,
        page <= addr,
        addr + 2 * n <= page + 2 * half,
        in_span(addr, n, x),
    ensures
        in_span(page, half, x),
{
    assert(x - page == 2 * ((x - addr) / 2 + addr / 2 - page / 2));
}

proof fn blank_within<B: Bus>(b: B, page: u32, size: u32, addr: u32, n: nat)
    requires
        page >= FLASH_BASE,
        size == 1024 || size == 2048,
        (page - FLASH_BASE) % size as int == 0,
        addr % 2 == 0,
        page <= addr,
        addr + 2 * n <= page + size,
        blank(b, page, (size / 2) as nat),
    ensures
        blank(b, addr, n),
{
    page_is_even(page, size);
    assert forall|x: u32| in_span(addr, n, x) implies #[trigger] cell(b, x) == 0xFFFF by {
        span_within(page, (size / 2) as nat, addr, n, x);
    }
}

proof fn unlocked_leaves<B: Bus>(b0: B, b1: B, x: u32)
    requires
        b0.flat(),
        unlocked(b0, b1),
    ensures
        b1.flat(),
        cell(b1, x) == cell(b0, x),
        quiet(b1) == quiet(b0),
{
    broadcast use reg::group_after;

    let ctl = choose|ctl: u32| reg::ran(b0, b1, #[trigger] unlock_script(ctl));
    reg::ran_leaves(b0, b1, unlock_script(ctl), x);
    reg::ran_leaves(b0, b1, unlock_script(ctl), reg::at(FMC_BASE, STAT));
}

proof fn settled_leaves<B: Bus>(b0: B, b1: B, stat: u32, x: u32)
    requires
        b0.flat(),
        settled(b0, b1, true, stat),
    ensures
        b1.flat(),
        cell(b1, x) == cell(b0, x),
        stat == status(reg::recall(b0.log(), reg::at(FMC_BASE, STAT))),
        quiet(b0) ==> quiet(b1) && stat & 0x17 == 0,
        reg::recall(b0.log(), reg::at(FMC_BASE, STAT)) & STAT_PGERR != 0 ==> stat & STAT_PGERR != 0,
{
    let k = choose|k: B|
        {
            &&& reg::did(b0, k, busy_step())
            &&& #[trigger] reg::did(k, b1, ack_step(true))
            &&& stat == status(reg::last_load(k.log()))
        };
    let st = reg::at(FMC_BASE, STAT);
    reg::did_shows(b0, k, busy_step());
    reg::did_leaves(b0, k, busy_step(), x);
    reg::did_leaves(b0, k, busy_step(), st);
    reg::did_leaves(k, b1, ack_step(true), x);
    reg::did_leaves(k, b1, ack_step(true), st);
    let w = reg::recall(b0.log(), st);
    assert(w & 0x17 == 0 ==> w & 1 == 0 && reg::merge(w, 0x34, 0) & 0x17 == 0) by (bit_vector);
    assert(w & 4 != 0 ==> (w | 2) & 4 != 0) by (bit_vector);
}

proof fn fill_leaves(addr: u32, n: nat, x: u32, h: u16)
    requires
        addr + 2 * n <= u32::MAX + 1,
    ensures
        reg::half_after(fill_script(addr, n), x, h) == if in_span(addr, n, x) {
            ERASED
        } else {
            h
        },
    decreases n,
{
    broadcast use reg::group_after;

    if n > 0 {
        fill_leaves(addr, (n - 1) as nat, x, h);
    }
}

/// An erased page reads erased, and nothing else changes.
pub proof fn law_erase_blanks_the_page<B: Bus>(
    fmc: Fmc,
    b0: B,
    b1: B,
    addr: u32,
    r: Result<(), FmcError>,
)
    requires
        fmc.wf(),
        b0.flat(),
        fmc.page_at(addr),
        fmc.erasure(b0, b1, addr, r),
    ensures
        b1.flat(),
        blank(b1, addr, (fmc.page() / 2) as nat),
        forall|x: u32|
            !in_span(addr, (fmc.page() / 2) as nat, x) ==> #[trigger] cell(b1, x) == cell(b0, x),
        quiet(b0) ==> r is Ok && quiet(b1),
{
    let stat = choose|stat: u32|
        #[trigger] erased(b0, b1, fmc.page(), addr, stat) && r == outcome(stat);
    let n = (fmc.page() / 2) as nat;
    assert forall|x: u32| #[trigger]
        cell(b1, x) == (if in_span(addr, n, x) {
            ERASED
        } else {
            cell(b0, x)
        }) by {
        erased_leaves(b0, b1, fmc.page(), addr, stat, x);
    }
    erased_leaves(b0, b1, fmc.page(), addr, stat, 0);
    assert(stat & 0x17 == 0 ==> stat & 2 == 0 && stat & 0x10 == 0 && stat & 4 == 0)
        by (bit_vector);
}

proof fn erased_leaves<B: Bus>(b0: B, b1: B, page_size: u32, addr: u32, stat: u32, x: u32)
    requires
        b0.flat(),
        page_size % 2 == 0,
        addr + page_size <= u32::MAX,
        erased(b0, b1, page_size, addr, stat),
    ensures
        b1.flat(),
        cell(b1, x) == if in_span(addr, (page_size / 2) as nat, x) {
            ERASED
        } else {
            cell(b0, x)
        },
        quiet(b0) ==> stat & 0x17 == 0 && quiet(b1),
{
    broadcast use reg::group_after;

    let (u, k, m) = choose|u: B, k: B, m: B|
        {
            &&& unlocked(b0, u)
            &&& #[trigger] reg::ran(u, k, erase_script(b0.flat(), page_size, addr))
            &&& settled(k, m, b0.flat(), stat)
            &&& #[trigger] reg::did(m, b1, store_step(CTL, 0))
        };
    let st = reg::at(FMC_BASE, STAT);
    let n = (page_size / 2) as nat;
    let script = erase_script(true, page_size, addr);
    let command = erase_script(false, page_size, addr);
    unlocked_leaves(b0, u, x);
    reg::ran_leaves(u, k, script, x);
    reg::ran_leaves(u, k, script, st);
    reg::half_after_append(command, fill_script(addr, n), x, cell(u, x));
    reg::word_after_append(command, fill_script(addr, n), st, reg::recall(u.log(), st));
    fill_leaves(addr, n, x, cell(u, x));
    fill_words(addr, n, st, reg::recall(u.log(), st));
    settled_leaves(k, m, stat, x);
    reg::did_leaves(m, b1, store_step(CTL, 0), x);
    reg::did_leaves(m, b1, store_step(CTL, 0), st);
}

proof fn fill_words(addr: u32, n: nat, x: u32, w: u32)
    ensures
        reg::word_after(fill_script(addr, n), x, w) == w,
    decreases n,
{
    broadcast use reg::group_after;

    if n > 0 {
        fill_words(addr, (n - 1) as nat, x, w);
    }
}

/// What one halfword leaves: an erased cell takes the value, any other keeps its own and raises
/// the program error.
proof fn put_leaves<B: Bus>(b0: B, b1: B, addr: u32, hw: u16, stat: u32, x: u32)
    requires
        b0.flat(),
        put(b0, b1, addr, hw, stat),
    ensures
        b1.flat(),
        cell(b1, x) == if x == addr && cell(b0, addr) == ERASED {
            hw
        } else {
            cell(b0, x)
        },
        cell(b0, addr) != ERASED ==> stat & STAT_PGERR != 0,
        cell(b0, addr) == ERASED && quiet(b0) ==> quiet(b1) && stat & 0x17 == 0,
{
    broadcast use reg::group_after;

    let (k, held) = choose|k: B, held: u16|
        {
            &&& reg::ran(b0, k, #[trigger] put_script(b0.flat(), addr, hw, held))
            &&& #[trigger] settled(k, b1, b0.flat(), stat)
        };
    let script = put_script(true, addr, hw, held);
    let st = reg::at(FMC_BASE, STAT);
    reg::ran_loads(b0, k, script, 0);
    assert(script.take(0) =~= Seq::empty());
    reg::ran_leaves(b0, k, script, x);
    reg::ran_leaves(b0, k, script, st);
    settled_leaves(k, b1, stat, x);
    let w = reg::recall(b0.log(), st);
    assert(reg::merge(w, 4, 4) & 4 != 0) by (bit_vector);
}

/// What programming `n` halfwords leaves, at every address: the erased ones among them take their
/// values; everything else stays. A halfword that was not erased raises the program error.
proof fn progressed_leaves<B: Bus>(
    b0: B,
    b1: B,
    addr: u32,
    bytes: Seq<u8>,
    n: nat,
    worst: u32,
    x: u32,
)
    requires
        b0.flat(),
        progressed(b0, b1, addr, bytes, n, worst),
        addr + 2 * n <= u32::MAX,
    ensures
        b1.flat(),
        cell(b1, x) == if in_span(addr, n, x) && cell(b0, x) == ERASED {
            halfword_at(bytes, (x - addr) / 2)
        } else {
            cell(b0, x)
        },
        in_span(addr, n, x) && cell(b0, x) != ERASED ==> worst & STAT_PGERR != 0,
        blank(b0, addr, n) && quiet(b0) ==> quiet(b1) && worst & 0x17 == 0,
    decreases n,
{
    if n == 0 {
        bits::no_bits(0x17);
    } else {
        let (m, before, stat) = choose|m: B, before: u32, stat: u32|
            {
                &&& progressed(b0, m, addr, bytes, (n - 1) as nat, before)
                &&& #[trigger] put(
                    m,
                    b1,
                    (addr + 2 * (n - 1)) as u32,
                    halfword_at(bytes, n - 1),
                    stat,
                )
                &&& #[trigger] gathers(worst, before, stat)
            };
        let last = (addr + 2 * (n - 1)) as u32;
        span_grows(addr, n, x);
        span_grows(addr, n, last);
        progressed_leaves(b0, m, addr, bytes, (n - 1) as nat, before, x);
        progressed_leaves(b0, m, addr, bytes, (n - 1) as nat, before, last);
        put_leaves(m, b1, last, halfword_at(bytes, n - 1), stat, x);
        assert((before & 4 != 0 ==> (before | stat) & 4 != 0) && (stat & 4 != 0 ==> (before | stat)
            & 4 != 0) && (before & 0x17 == 0 && stat & 0x17 == 0 ==> (before | stat) & 0x17 == 0))
            by (bit_vector);
        if blank(b0, addr, n) {
            assert forall|y: u32| in_span(addr, (n - 1) as nat, y) implies #[trigger] cell(b0, y)
                == ERASED by {
                span_grows(addr, n, y);
            }
            assert(cell(b0, last) == ERASED);
        }
    }
}

/// Programming past the check for erased halfwords, as [`Fmc::program_host`] does: a halfword is
/// written once. An erased one takes its value; any other keeps its own and the program error is
/// raised.
pub proof fn law_halfwords_are_written_once<B: Bus>(
    b0: B,
    b1: B,
    addr: u32,
    bytes: Seq<u8>,
    worst: u32,
    x: u32,
)
    requires
        b0.flat(),
        bytes.len() % 2 == 0,
        addr + bytes.len() <= u32::MAX,
        programmed(b0, b1, addr, bytes, worst),
    ensures
        b1.flat(),
        cell(b1, x) == if in_span(addr, bytes.len() / 2, x) && cell(b0, x) == 0xFFFF {
            halfword_at(bytes, (x - addr) / 2)
        } else {
            cell(b0, x)
        },
        in_span(addr, bytes.len() / 2, x) && cell(b0, x) != 0xFFFF ==> worst & 4 != 0,
        blank(b0, addr, bytes.len() / 2) && quiet(b0) ==> outcome(worst) is Ok && quiet(b1),
{
    let (u, v, m) = choose|u: B, v: B, m: B|
        {
            &&& unlocked(b0, u)
            &&& #[trigger] reg::did(u, v, store_step(CTL, CTL_PG))
            &&& progressed(v, m, addr, bytes, bytes.len() / 2, worst)
            &&& #[trigger] reg::did(m, b1, store_step(CTL, 0))
        };
    let n = bytes.len() / 2;
    let st = reg::at(FMC_BASE, STAT);
    assert forall|y: u32| #[trigger] cell(v, y) == cell(b0, y) by {
        unlocked_leaves(b0, u, y);
        reg::did_leaves(u, v, store_step(CTL, CTL_PG), y);
    }
    unlocked_leaves(b0, u, x);
    reg::did_leaves(u, v, store_step(CTL, CTL_PG), st);
    progressed_leaves(v, m, addr, bytes, n, worst, x);
    reg::did_leaves(m, b1, store_step(CTL, 0), x);
    reg::did_leaves(m, b1, store_step(CTL, 0), st);
    assert(worst & 0x17 == 0 ==> worst & 2 == 0 && worst & 0x10 == 0 && worst & 4 == 0)
        by (bit_vector);
    if blank(b0, addr, n) {
        assert(blank(v, addr, n));
    }
}

proof fn scan_leaves(addr: u32, n: nat, x: u32, w: u32, h: u16)
    ensures
        reg::word_after(scan_script(addr, n), x, w) == w,
        reg::half_after(scan_script(addr, n), x, h) == h,
    decreases n,
{
    broadcast use reg::group_after;

    if n > 0 {
        scan_leaves(addr, (n - 1) as nat, x, w, h);
    }
}

proof fn scan_reads(addr: u32, n: nat, i: int)
    requires
        0 <= i < n,
    ensures
        scan_script(addr, n).len() == n,
        scan_script(addr, n)[i] == (Step::LoadHalf {
            addr: (addr + 2 * i) as u32,
            value: ERASED,
        }),
        scan_script(addr, n).take(i) == scan_script(addr, i as nat),
    decreases n,
{
    if i < n - 1 {
        scan_reads(addr, (n - 1) as nat, i);
        assert(scan_script(addr, n).take(i) =~= scan_script(addr, (n - 1) as nat).take(i));
    } else {
        scan_len(addr, (n - 1) as nat);
        assert(scan_script(addr, n).take(i) =~= scan_script(addr, (n - 1) as nat));
    }
}

proof fn scan_len(addr: u32, n: nat)
    ensures
        scan_script(addr, n).len() == n,
    decreases n,
{
    if n > 0 {
        scan_len(addr, (n - 1) as nat);
    }
}

proof fn scan_shows_blank<B: Bus>(b0: B, b1: B, addr: u32, n: nat)
    requires
        b0.flat(),
        addr + 2 * n <= u32::MAX,
        reg::ran(b0, b1, scan_script(addr, n)),
    ensures
        blank(b0, addr, n),
{
    assert forall|x: u32| in_span(addr, n, x) implies #[trigger] cell(b0, x) == ERASED by {
        let i = (x - addr) / 2;
        scan_reads(addr, n, i);
        reg::ran_loads(b0, b1, scan_script(addr, n), i);
        scan_leaves(addr, i as nat, x, 0, cell(b0, x));
    }
}

/// Programming is all or nothing: it is refused exactly when a halfword of the span is not erased,
/// and then leaves everything as it was. Otherwise every halfword of the span reads back as the
/// bytes given and every other halfword is unchanged, and if the controller showed no error
/// before, the result is success.
pub proof fn law_program_reads_back<B: Bus>(
    fmc: Fmc,
    b0: B,
    b1: B,
    addr: u32,
    bytes: Seq<u8>,
    r: Result<(), FmcError>,
)
    requires
        fmc.wf(),
        b0.flat(),
        bytes.len() > 0,
        fmc.span_at(addr, bytes.len() as int),
        fmc.programming(b0, b1, addr, bytes, r),
    ensures
        b1.flat(),
        r == Err::<(), _>(FmcError::NotErased) <==> !blank(b0, addr, bytes.len() / 2),
        !blank(b0, addr, bytes.len() / 2) ==> forall|x: u32|
            #![trigger cell(b1, x)]
            cell(b1, x) == cell(b0, x) && reg::recall(b1.log(), x) == reg::recall(b0.log(), x),
        blank(b0, addr, bytes.len() / 2) ==> forall|x: u32| #[trigger]
            cell(b1, x) == if in_span(addr, bytes.len() / 2, x) {
                halfword_at(bytes, (x - addr) / 2)
            } else {
                cell(b0, x)
            },
        blank(b0, addr, bytes.len() / 2) && quiet(b0) ==> r is Ok && quiet(b1),
{
    let n = bytes.len() / 2;
    if exists|i: nat, held: u16|
        {
            &&& i < bytes.len() / 2
            &&& held != ERASED
            &&& reg::ran(b0, b1, #[trigger] spent_script(addr, i, held))
        } && r == Err::<(), _>(FmcError::NotErased) {
        let (i, held) = choose|i: nat, held: u16|
            {
                &&& i < bytes.len() / 2
                &&& held != ERASED
                &&& reg::ran(b0, b1, #[trigger] spent_script(addr, i, held))
            };
        refusal_leaves(b0, b1, addr, n, i, held);
    } else {
        let (m, worst) = choose|m: B, worst: u32|
            {
                &&& reg::ran(b0, m, scan_script(addr, bytes.len() / 2))
                &&& #[trigger] programmed(m, b1, addr, bytes, worst)
                &&& r == outcome(worst)
            };
        scan_shows_blank(b0, m, addr, n);
        assert forall|y: u32| #[trigger] cell(m, y) == cell(b0, y) by {
            reg::ran_leaves(b0, m, scan_script(addr, n), y);
            scan_leaves(addr, n, y, 0, cell(b0, y));
        }
        let st = reg::at(FMC_BASE, STAT);
        reg::ran_leaves(b0, m, scan_script(addr, n), st);
        scan_leaves(addr, n, st, reg::recall(b0.log(), st), 0);
        assert(blank(m, addr, n));
        assert forall|x: u32| #[trigger]
            cell(b1, x) == if in_span(addr, n, x) {
                halfword_at(bytes, (x - addr) / 2)
            } else {
                cell(b0, x)
            } by {
            law_halfwords_are_written_once(m, b1, addr, bytes, worst, x);
        }
        law_halfwords_are_written_once(m, b1, addr, bytes, worst, 0);
    }
}

proof fn refusal_leaves<B: Bus>(b0: B, b1: B, addr: u32, n: nat, i: nat, held: u16)
    requires
        b0.flat(),
        i < n,
        addr + 2 * n <= u32::MAX,
        held != ERASED,
        reg::ran(b0, b1, spent_script(addr, i, held)),
    ensures
        b1.flat(),
        !blank(b0, addr, n),
        forall|x: u32|
            #![trigger cell(b1, x)]
            cell(b1, x) == cell(b0, x) && reg::recall(b1.log(), x) == reg::recall(b0.log(), x),
{
    broadcast use reg::group_after;

    let script = spent_script(addr, i, held);
    let at = (addr + 2 * i) as u32;
    scan_len(addr, i);
    reg::ran_loads(b0, b1, script, i as int);
    assert(script.take(i as int) =~= scan_script(addr, i));
    scan_leaves(addr, i, at, 0, cell(b0, at));
    assert(in_span(addr, n, at));
    assert(cell(b0, at) == held);
    assert forall|x: u32|
        #![trigger cell(b1, x)]
        cell(b1, x) == cell(b0, x) && reg::recall(b1.log(), x) == reg::recall(b0.log(), x) by {
        reg::ran_leaves(b0, b1, script, x);
        scan_leaves(addr, i, x, reg::recall(b0.log(), x), cell(b0, x));
    }
}

/// A page that was just erased takes anything that fits into it, and reads back as given.
pub proof fn law_erase_makes_room<B: Bus>(
    fmc: Fmc,
    b0: B,
    b1: B,
    b2: B,
    page: u32,
    addr: u32,
    bytes: Seq<u8>,
    erase: Result<(), FmcError>,
    r: Result<(), FmcError>,
)
    requires
        fmc.wf(),
        b0.flat(),
        quiet(b0),
        fmc.page_at(page),
        fmc.erasure(b0, b1, page, erase),
        bytes.len() > 0,
        fmc.span_at(addr, bytes.len() as int),
        page <= addr,
        addr + bytes.len() <= page + fmc.page(),
        fmc.programming(b1, b2, addr, bytes, r),
    ensures
        r is Ok,
        forall|x: u32| in_span(addr, bytes.len() / 2, x) ==> #[trigger] cell(b2, x) == halfword_at(
            bytes,
            (x - addr) / 2,
        ),
{
    law_erase_blanks_the_page(fmc, b0, b1, page, erase);
    blank_within(b1, page, fmc.page(), addr, bytes.len() / 2);
    law_program_reads_back(fmc, b1, b2, addr, bytes, r);
}

// --- what a part sees -------------------------------------------------------------------------

/// The halfwords of some bytes and where they belong from `addr` on: the first byte of each is the
/// lower.
pub open spec fn laid_out(addr: u32, bytes: Seq<u8>, n: nat) -> Seq<(u32, u16)> {
    Seq::new(
        n,
        |i: int| ((addr + 2 * i) as u32, (bytes[2 * i] + 256 * bytes[2 * i + 1]) as u16),
    )
}

proof fn settled_traces<B: Bus>(b0: B, b1: B, flat: bool, stat: u32)
    requires
        settled(b0, b1, flat, stat),
    ensures
        reg::steady(b0, b1),
        trace::halves(b1.log()) == trace::halves(b0.log()),
{
    broadcast use trace::group_of;

    let k = choose|k: B|
        {
            &&& reg::did(b0, k, busy_step())
            &&& #[trigger] reg::did(k, b1, ack_step(flat))
            &&& stat == status(reg::last_load(k.log()))
        };
    reg::ran_one(b0, k, busy_step());
    reg::ran_one(k, b1, ack_step(flat));
    reg::ran_append(b0, k, b1, seq![busy_step()], seq![ack_step(flat)]);
    let script = seq![busy_step()] + seq![ack_step(flat)];
    assert(script =~= Seq::<Step>::empty().push(busy_step()).push(ack_step(flat)));
    trace::ran_traces(b0, b1, script, 0);
    assert(trace::halves(b1.log()) =~= trace::halves(b0.log()));
}

proof fn progressed_traces<B: Bus>(b0: B, b1: B, addr: u32, bytes: Seq<u8>, n: nat, worst: u32)
    requires
        !b0.flat(),
        2 * n <= bytes.len(),
        progressed(b0, b1, addr, bytes, n, worst),
    ensures
        reg::steady(b0, b1),
        trace::halves(b1.log()) == trace::halves(b0.log()) + laid_out(addr, bytes, n),
    decreases n,
{
    broadcast use trace::group_of;

    if n == 0 {
        reg::steady_refl(b0);
        assert(trace::halves(b1.log()) =~= trace::halves(b0.log()) + laid_out(addr, bytes, n));
    } else {
        let (m, before, stat) = choose|m: B, before: u32, stat: u32|
            {
                &&& progressed(b0, m, addr, bytes, (n - 1) as nat, before)
                &&& #[trigger] put(
                    m,
                    b1,
                    (addr + 2 * (n - 1)) as u32,
                    halfword_at(bytes, n - 1),
                    stat,
                )
                &&& #[trigger] gathers(worst, before, stat)
            };
        progressed_traces(b0, m, addr, bytes, (n - 1) as nat, before);
        let at = (addr + 2 * (n - 1)) as u32;
        let hw = halfword_at(bytes, n - 1);
        let (k, held) = choose|k: B, held: u16|
            {
                &&& reg::ran(m, k, #[trigger] put_script(m.flat(), at, hw, held))
                &&& #[trigger] settled(k, b1, m.flat(), stat)
            };
        trace::ran_traces(m, k, put_script(false, at, hw, held), 0);
        settled_traces(k, b1, false, stat);
        reg::steady_trans(b0, m, k);
        reg::steady_trans(b0, k, b1);
        bits::two_bytes(bytes[2 * (n - 1)], bytes[2 * (n - 1) + 1]);
        assert(trace::halves(b1.log()) =~= trace::halves(b0.log()) + laid_out(addr, bytes, n));
    }
}

proof fn unlocked_traces<B: Bus>(b0: B, b1: B)
    requires
        unlocked(b0, b1),
    ensures
        reg::steady(b0, b1),
        trace::halves(b1.log()) == trace::halves(b0.log()),
{
    broadcast use trace::group_of;

    let ctl = choose|ctl: u32| reg::ran(b0, b1, #[trigger] unlock_script(ctl));
    trace::ran_traces(b0, b1, unlock_script(ctl), 0);
    assert(trace::halves(b1.log()) =~= trace::halves(b0.log()));
}

/// On a part, programming stores the halfwords of the bytes, each once, in order, and each where it
/// belongs: the one in place `i` goes to `addr + 2 * i`. It stores no other halfword.
pub proof fn law_halfwords_go_where_they_belong<B: Bus>(
    fmc: Fmc,
    b0: B,
    b1: B,
    addr: u32,
    bytes: Seq<u8>,
    r: Result<(), FmcError>,
)
    requires
        fmc.wf(),
        !b0.flat(),
        fmc.programming(b0, b1, addr, bytes, r),
    ensures
        r != Err::<(), _>(FmcError::NotErased) && r != Err::<(), _>(FmcError::BadArg)
            ==> trace::halves(b1.log()) == trace::halves(b0.log()) + laid_out(
            addr,
            bytes,
            bytes.len() / 2,
        ),
        r == Err::<(), _>(FmcError::NotErased) || r == Err::<(), _>(FmcError::BadArg)
            ==> trace::halves(b1.log()) == trace::halves(b0.log()),
{
    broadcast use trace::group_of;

    let n = bytes.len() / 2;
    if bytes.len() == 0 || !fmc.span_at(addr, bytes.len() as int) {
        assert(trace::halves(b0.log()) + laid_out(addr, bytes, 0) =~= trace::halves(b0.log()));
    } else if exists|i: nat, held: u16|
        {
            &&& i < bytes.len() / 2
            &&& held != ERASED
            &&& reg::ran(b0, b1, #[trigger] spent_script(addr, i, held))
        } && r == Err::<(), _>(FmcError::NotErased) {
        let (i, held) = choose|i: nat, held: u16|
            {
                &&& i < bytes.len() / 2
                &&& held != ERASED
                &&& reg::ran(b0, b1, #[trigger] spent_script(addr, i, held))
            };
        scan_stores_nothing(addr, i);
        trace::ran_traces(b0, b1, spent_script(addr, i, held), 0);
        assert(trace::halves(b1.log()) =~= trace::halves(b0.log()));
    } else {
        let (s, worst) = choose|s: B, worst: u32|
            {
                &&& reg::ran(b0, s, scan_script(addr, bytes.len() / 2))
                &&& #[trigger] programmed(s, b1, addr, bytes, worst)
                &&& r == outcome(worst)
            };
        scan_stores_nothing(addr, n);
        trace::ran_traces(b0, s, scan_script(addr, n), 0);
        let (u, v, m) = choose|u: B, v: B, m: B|
            {
                &&& unlocked(s, u)
                &&& #[trigger] reg::did(u, v, store_step(CTL, CTL_PG))
                &&& progressed(v, m, addr, bytes, bytes.len() / 2, worst)
                &&& #[trigger] reg::did(m, b1, store_step(CTL, 0))
            };
        unlocked_traces(s, u);
        reg::ran_one(u, v, store_step(CTL, CTL_PG));
        assert(seq![store_step(CTL, CTL_PG)] =~= Seq::<Step>::empty().push(
            store_step(CTL, CTL_PG),
        ));
        trace::ran_traces(u, v, seq![store_step(CTL, CTL_PG)], 0);
        progressed_traces(v, m, addr, bytes, n, worst);
        reg::ran_one(m, b1, store_step(CTL, 0));
        assert(seq![store_step(CTL, 0)] =~= Seq::<Step>::empty().push(store_step(CTL, 0)));
        trace::ran_traces(m, b1, seq![store_step(CTL, 0)], 0);
        assert(trace::halves(b1.log()) =~= trace::halves(b0.log()) + laid_out(addr, bytes, n));
    }
}

proof fn scan_stores_nothing(addr: u32, n: nat)
    ensures
        trace::halves_of(scan_script(addr, n)) == Seq::<(u32, u16)>::empty(),
        trace::all_plain(scan_script(addr, n), 0),
    decreases n,
{
    broadcast use trace::group_of;

    if n > 0 {
        scan_stores_nothing(addr, (n - 1) as nat);
    }
}

// --- what the controller of a part is told and tells ------------------------------------------

/// What the status register read when a wait ended, for each wait: the load before each clearing of
/// its flags.
pub open spec fn ends(log: Seq<Access>) -> Seq<u32>
    decreases log.len(),
{
    if log.len() == 0 {
        Seq::empty()
    } else {
        let before = log.drop_last();
        match log.last() {
            Access::Store { addr: 0x4002_200C, .. } => ends(before).push(reg::last_load(before)),
            _ => ends(before),
        }
    }
}

broadcast proof fn ends_push(log: Seq<Access>, a: Access)
    ensures
        #[trigger] ends(log.push(a)) == (match a {
            Access::Store { addr: 0x4002_200C, .. } => ends(log).push(reg::last_load(log)),
            _ => ends(log),
        }),
{
    assert(log.push(a).drop_last() =~= log);
}

proof fn missed_ends(before: Seq<Access>, after: Seq<Access>, addr: u32, want: Want, abort: u32)
    requires
        reg::missed(before, after, addr, want, abort),
    ensures
        ends(after) == ends(before),
    decreases after.len(),
{
    if after.len() == before.len() {
        assert(after.take(before.len() as int) =~= after);
    } else {
        let last = after[after.len() - 1];
        assert(after.drop_last().take(before.len() as int) =~= after.take(before.len() as int));
        missed_ends(before, after.drop_last(), addr, want, abort);
    }
}

/// What some statuses come to: a wait that gave up, or a reserved flag, outranks write protection,
/// which outranks a halfword that was not erased; without any of these it is success.
pub open spec fn comes_to(statuses: Seq<u32>) -> Result<(), FmcError> {
    if exists|i: int| 0 <= i < statuses.len() && #[trigger] statuses[i] & 3 != 0 {
        Err(FmcError::Timeout)
    } else if exists|i: int| 0 <= i < statuses.len() && #[trigger] statuses[i] & 0x10 != 0 {
        Err(FmcError::WriteProtect)
    } else if exists|i: int| 0 <= i < statuses.len() && #[trigger] statuses[i] & 4 != 0 {
        Err(FmcError::ProgramError)
    } else {
        Ok(())
    }
}

/// The keys that unlock the controller, where it is locked.
pub open spec fn keys(ctl: u32) -> Seq<(u32, u32)> {
    if ctl & 0x80 != 0 {
        seq![(0x4002_2004u32, 0x4567_0123u32), (0x4002_2004u32, 0xCDEF_89ABu32)]
    } else {
        Seq::empty()
    }
}

/// A wait on a part: the flags are cleared once; where the controller is still busy at its end, each
/// of a hundred million loads of its status found it so.
proof fn settled_on_part<B: Bus>(b0: B, b1: B, stat: u32)
    requires
        settled(b0, b1, false, stat),
    ensures
        reg::steady(b0, b1),
        trace::words(b1.log()) == trace::words(b0.log()).push((0x4002_200C, 0x34)),
        b1.log().len() > b0.log().len() + 1,
        b1.log()[b1.log().len() - 2] is Load,
        ({
            let last = reg::last_load(b1.log().drop_last());
            &&& ends(b1.log()) == ends(b0.log()).push(last)
            &&& stat == status(last)
            &&& last & 1 != 0 ==> {
                &&& b1.log().len() == b0.log().len() + 100_000_001
                &&& forall|j: int|
                    b0.log().len() <= j < b1.log().len() - 1 ==> (#[trigger] b1.log()[j] matches
                        Access::Load { addr, value } && addr == 0x4002_200C && value & 1 != 0)
            }
        }),
{
    broadcast use {trace::group_words, trace::words_push, ends_push};

    let k = choose|k: B|
        {
            &&& reg::did(b0, k, busy_step())
            &&& #[trigger] reg::did(k, b1, ack_step(false))
            &&& stat == status(reg::last_load(k.log()))
        };
    reg::steady_trans(b0, k, b1);
    let want = Want::Low { mask: STAT_BUSY };
    let polls = k.log().drop_last();
    missed_ends(b0.log(), polls, 0x4002_200C, want, 0);
    assert(k.log() =~= polls.push(k.log().last()));
    let none = Seq::<Step>::empty();
    reg::ran_one(b0, k, busy_step());
    assert(seq![busy_step()] =~= none.push(busy_step()));
    trace::performs_words(b0.log(), k.log(), none.push(busy_step()));
    assert(b1.log().drop_last() =~= k.log());
    assert(b1.log()[b1.log().len() - 2] == k.log().last());
    let last = reg::last_load(k.log());
    if last & 1 != 0 {
        assert forall|j: int| b0.log().len() <= j < b1.log().len() - 1 implies (
        #[trigger] b1.log()[j] matches Access::Load { addr, value } && addr == 0x4002_200C && value
            & 1 != 0) by {
            if j < k.log().len() - 1 {
                assert(polls[j] == b1.log()[j]);
            } else {
                assert(b1.log()[j] == k.log().last());
            }
        }
    }
}

proof fn unlocked_on_part<B: Bus>(b0: B, b1: B)
    requires
        unlocked(b0, b1),
    ensures
        reg::steady(b0, b1),
        b1.log().len() > b0.log().len(),
        b1.log()[b0.log().len() as int] matches Access::Load { addr: 0x4002_2010, value: ctl }
            && trace::words(b1.log()) == trace::words(b0.log()) + keys(ctl),
        ends(b1.log()) == ends(b0.log()),
{
    broadcast use {trace::group_words, ends_push};

    let ctl = choose|ctl: u32| reg::ran(b0, b1, #[trigger] unlock_script(ctl));
    let script = unlock_script(ctl);
    let none = Seq::<Step>::empty();
    let look = Step::Load { addr: 0x4002_2010, value: ctl };
    trace::performs_words(b0.log(), b1.log(), script);
    if ctl & CTL_LK != 0 {
        let one = store_step(KEY, KEY1);
        let two = store_step(KEY, KEY2);
        let m2 = reg::last_step(b0.log(), b1.log(), none.push(look).push(one), two);
        let m1 = reg::last_step(b0.log(), m2, none.push(look), one);
        let m0 = reg::last_step(b0.log(), m1, none, look);
        assert(b1.log()[b0.log().len() as int] == m1[b0.log().len() as int]);
        assert(trace::words_of(script) =~= keys(ctl));
    } else {
        let m0 = reg::last_step(b0.log(), b1.log(), none, look);
        assert(trace::words_of(script) =~= keys(ctl));
    }
}

/// On a part, erasing a page unlocks the controller where it is locked, asks for a page erase, gives
/// the page, starts, waits, clears the flags and ends the request, in this order and with nothing
/// else; what it comes to is told by the status at the end of the wait. A wait is given up only where
/// a hundred million loads of the status found the controller busy.
pub proof fn law_erase_on_a_part<B: Bus>(
    fmc: Fmc,
    b0: B,
    b1: B,
    addr: u32,
    r: Result<(), FmcError>,
)
    requires
        fmc.wf(),
        !b0.flat(),
        fmc.page_at(addr),
        fmc.erasure(b0, b1, addr, r),
    ensures
        b1.log()[b0.log().len() as int] matches Access::Load { addr: 0x4002_2010, value: ctl }
            && trace::words(b1.log()) == trace::words(b0.log()) + keys(ctl) + seq![
            (0x4002_2010u32, 2u32),
            (0x4002_2014, addr),
            (0x4002_2010, 0x42),
            (0x4002_200C, 0x34),
            (0x4002_2010, 0),
        ],
        ({
            let n = b1.log().len();
            let last = reg::last_load(b1.log().take(n - 2));
            &&& ends(b1.log()) == ends(b0.log()).push(last)
            &&& r == comes_to(seq![last])
            &&& last & 1 != 0 ==> forall|j: int|
                n - 100_000_002 <= j < n - 2 ==> (#[trigger] b1.log()[j] matches Access::Load {
                    addr,
                    value,
                } && addr == 0x4002_200C && value & 1 != 0)
        }),
{
    broadcast use {trace::group_words, trace::words_push, ends_push};

    let stat = choose|stat: u32|
        #[trigger] erased(b0, b1, fmc.page(), addr, stat) && r == outcome(stat);
    let (u, k, m) = choose|u: B, k: B, m: B|
        {
            &&& unlocked(b0, u)
            &&& #[trigger] reg::ran(u, k, erase_script(b0.flat(), fmc.page(), addr))
            &&& settled(k, m, b0.flat(), stat)
            &&& #[trigger] reg::did(m, b1, store_step(CTL, 0))
        };
    let script = erase_script(false, fmc.page(), addr);
    unlocked_on_part(b0, u);
    trace::performs_words(u.log(), k.log(), script);
    let none = Seq::<Step>::empty();
    let s1 = store_step(CTL, CTL_PER);
    let s2 = store_step(ADDR, addr);
    let s3 = store_step(CTL, CTL_PER_START);
    let m2 = reg::last_step(u.log(), k.log(), none.push(s1).push(s2), s3);
    let m1 = reg::last_step(u.log(), m2, none.push(s1), s2);
    let m0 = reg::last_step(u.log(), m1, none, s1);
    settled_on_part(k, m, stat);
    let n = b1.log().len();
    let i = b0.log().len() as int;
    assert(b1.log()[i] == u.log()[i]) by {
        reg::steady_trans(u, k, m);
        assert(m.log().take(u.log().len() as int)[i] == u.log()[i]);
        assert(m.log()[i] == u.log()[i]);
    }
    assert(b1.log().take(n - 2) =~= m.log().drop_last());
    let last = reg::last_load(m.log().drop_last());
    assert(seq![last][0] == last);
    bits::gathered(last, 2);
    assert forall|j: int| m.log().len() - 100_000_001 <= j < m.log().len() - 1 && last & 1 != 0 implies (
    #[trigger] b1.log()[j] matches Access::Load { addr, value } && addr == 0x4002_200C && value & 1
        != 0) by {
        assert(b1.log()[j] == m.log()[j]);
    }
    let ctl = u.log()[i]->Load_value;
    assert(trace::words(b1.log()) =~= trace::words(b0.log()) + keys(ctl) + seq![
        (0x4002_2010u32, 2u32),
        (0x4002_2014, addr),
        (0x4002_2010, 0x42),
        (0x4002_200C, 0x34),
        (0x4002_2010, 0),
    ]);
}

/// Clearing the flags `n` times.
pub open spec fn acks(n: nat) -> Seq<(u32, u32)> {
    Seq::new(n, |i: int| (0x4002_200Cu32, 0x34u32))
}

proof fn progressed_on_part<B: Bus>(b0: B, b1: B, addr: u32, bytes: Seq<u8>, n: nat, worst: u32)
    requires
        !b0.flat(),
        progressed(b0, b1, addr, bytes, n, worst),
    ensures
        reg::steady(b0, b1),
        trace::words(b1.log()) == trace::words(b0.log()) + acks(n),
        ({
            let s = ends(b1.log()).skip(ends(b0.log()).len() as int);
            &&& ends(b0.log()).len() + n == ends(b1.log()).len()
            &&& ends(b1.log()).take(ends(b0.log()).len() as int) == ends(b0.log())
            &&& s.len() == n
            &&& worst & 2 != 0 <==> exists|i: int| 0 <= i < n && #[trigger] s[i] & 3 != 0
            &&& worst & 0x10 != 0 <==> exists|i: int| 0 <= i < n && #[trigger] s[i] & 0x10 != 0
            &&& worst & 4 != 0 <==> exists|i: int| 0 <= i < n && #[trigger] s[i] & 4 != 0
        }),
    decreases n,
{
    broadcast use {trace::group_words, trace::words_push, ends_push};

    if n == 0 {
        reg::steady_refl(b0);
        bits::no_bits(2);
        bits::no_bits(4);
        bits::no_bits(0x10);
        assert(trace::words(b1.log()) =~= trace::words(b0.log()) + acks(n));
    } else {
        let (m, before, stat) = choose|m: B, before: u32, stat: u32|
            {
                &&& progressed(b0, m, addr, bytes, (n - 1) as nat, before)
                &&& #[trigger] put(
                    m,
                    b1,
                    (addr + 2 * (n - 1)) as u32,
                    halfword_at(bytes, n - 1),
                    stat,
                )
                &&& #[trigger] gathers(worst, before, stat)
            };
        progressed_on_part(b0, m, addr, bytes, (n - 1) as nat, before);
        let at = (addr + 2 * (n - 1)) as u32;
        let hw = halfword_at(bytes, n - 1);
        let (k, held) = choose|k: B, held: u16|
            {
                &&& reg::ran(m, k, #[trigger] put_script(m.flat(), at, hw, held))
                &&& #[trigger] settled(k, b1, m.flat(), stat)
            };
        let none = Seq::<Step>::empty();
        let store = Step::StoreHalf { addr: at, value: hw };
        trace::performs_words(m.log(), k.log(), none.push(store));
        let z = reg::last_step(m.log(), k.log(), none, store);
        settled_on_part(k, b1, stat);
        reg::steady_trans(b0, m, k);
        reg::steady_trans(b0, k, b1);
        assert(trace::words(b1.log()) =~= trace::words(b0.log()) + acks(n));
        let e = ends(b0.log()).len() as int;
        let last = reg::last_load(b1.log().drop_last());
        let s0 = ends(m.log()).skip(e);
        let s = ends(b1.log()).skip(e);
        assert(ends(b1.log()).take(e) =~= ends(m.log()).take(e));
        assert(s =~= s0.push(last));
        bits::gathered(before, stat);
        bits::gathered(last, 2);
        tally(s0, last, 3);
        tally(s0, last, 0x10);
        tally(s0, last, 4);
    }
}

proof fn tally(s: Seq<u32>, last: u32, mask: u32)
    ensures
        (exists|i: int| 0 <= i < s.len() + 1 && #[trigger] s.push(last)[i] & mask != 0) <==> (exists|
            i: int,
        | 0 <= i < s.len() && #[trigger] s[i] & mask != 0) || last & mask != 0,
{
    let t = s.push(last);
    if exists|i: int| 0 <= i < s.len() && #[trigger] s[i] & mask != 0 {
        let i = choose|i: int| 0 <= i < s.len() && #[trigger] s[i] & mask != 0;
        assert(t[i] == s[i]);
    }
    if last & mask != 0 {
        assert(t[s.len() as int] == last);
    }
    if exists|i: int| 0 <= i < s.len() + 1 && #[trigger] t[i] & mask != 0 {
        let i = choose|i: int| 0 <= i < s.len() + 1 && #[trigger] t[i] & mask != 0;
        if i < s.len() {
            assert(s[i] == t[i]);
        }
    }
}

/// On a part, programming unlocks the controller where it is locked, asks for programming, waits and
/// clears the flags once for each halfword, and ends the request, with nothing else stored but the
/// halfwords. What it comes to is told by the statuses at the ends of the waits, all together.
pub proof fn law_program_on_a_part<B: Bus>(
    fmc: Fmc,
    b0: B,
    b1: B,
    addr: u32,
    bytes: Seq<u8>,
    r: Result<(), FmcError>,
)
    requires
        fmc.wf(),
        !b0.flat(),
        bytes.len() > 0,
        fmc.span_at(addr, bytes.len() as int),
        fmc.programming(b0, b1, addr, bytes, r),
        r != Err::<(), _>(FmcError::NotErased),
    ensures
        ({
            let n = bytes.len() / 2;
            let e = ends(b0.log()).len() as int;
            let k = (b0.log().len() + n) as int;
            &&& b1.log()[k] matches Access::Load { addr: 0x4002_2010, value: ctl }
                && trace::words(b1.log()) == trace::words(b0.log()) + keys(ctl) + seq![
                (0x4002_2010u32, 1u32),
            ] + acks(n) + seq![(0x4002_2010u32, 0u32)]
            &&& ends(b1.log()).len() == e + n
            &&& r == comes_to(ends(b1.log()).skip(e))
        }),
{
    broadcast use {trace::group_words, trace::words_push, ends_push};

    let n = bytes.len() / 2;
    let (s, worst) = choose|s: B, worst: u32|
        {
            &&& reg::ran(b0, s, scan_script(addr, bytes.len() / 2))
            &&& #[trigger] programmed(s, b1, addr, bytes, worst)
            &&& r == outcome(worst)
        };
    scan_on_part(b0.log(), s.log(), addr, n);
    let (u, v, m) = choose|u: B, v: B, m: B|
        {
            &&& unlocked(s, u)
            &&& #[trigger] reg::did(u, v, store_step(CTL, CTL_PG))
            &&& progressed(v, m, addr, bytes, bytes.len() / 2, worst)
            &&& #[trigger] reg::did(m, b1, store_step(CTL, 0))
        };
    unlocked_on_part(s, u);
    progressed_on_part(v, m, addr, bytes, n, worst);
    let k = s.log().len() as int;
    reg::steady_trans(u, v, m);
    assert(m.log().take(u.log().len() as int)[k] == u.log()[k]);
    assert(b1.log()[k] == u.log()[k]);
    let ctl = u.log()[k]->Load_value;
    assert(trace::words(b1.log()) =~= trace::words(b0.log()) + keys(ctl) + seq![
        (0x4002_2010u32, 1u32),
    ] + acks(n) + seq![(0x4002_2010u32, 0u32)]);
    let e = ends(b0.log()).len() as int;
    assert(ends(v.log()) == ends(b0.log()));
    assert(ends(b1.log()) == ends(m.log()));
}

proof fn scan_on_part(l0: Seq<Access>, l1: Seq<Access>, addr: u32, n: nat)
    requires
        reg::performs(l0, l1, scan_script(addr, n)),
    ensures
        l1.len() == l0.len() + n,
        trace::words(l1) == trace::words(l0),
        ends(l1) == ends(l0),
    decreases n,
{
    broadcast use {trace::words_push, ends_push};

    if n > 0 {
        let step = Step::LoadHalf { addr: (addr + 2 * (n - 1)) as u32, value: ERASED };
        let rest = scan_script(addr, (n - 1) as nat);
        let mid = reg::last_step(l0, l1, rest, step);
        scan_on_part(l0, mid, addr, (n - 1) as nat);
    }
}

/// A page is erased only where there is one, on its own boundary in the flash, which begins at
/// 0x08000000; bytes are programmed only as whole halfwords in it. Anything else is refused as a bad
/// argument with nothing touched, and nothing else is.
pub proof fn law_refused_requests<B: Bus>(
    fmc: Fmc,
    b0: B,
    b1: B,
    addr: u32,
    bytes: Seq<u8>,
    r: Result<(), FmcError>,
)
    ensures
        fmc.page_at(addr) <==> 0x0800_0000 <= addr && addr + fmc.page() <= 0x0800_0000 + fmc.extent()
            && (addr - 0x0800_0000) % fmc.page() as int == 0,
        fmc.span_at(addr, bytes.len() as int) <==> addr % 2 == 0 && bytes.len() % 2 == 0
            && 0x0800_0000 <= addr && addr + bytes.len() <= 0x0800_0000 + fmc.extent(),
        fmc.erasure(b0, b1, addr, r) ==> (r == Err::<(), _>(FmcError::BadArg) <==> !fmc.page_at(addr)),
        fmc.erasure(b0, b1, addr, r) && r == Err::<(), _>(FmcError::BadArg) ==> b1 == b0,
        fmc.programming(b0, b1, addr, bytes, r) ==> (r == Err::<(), _>(FmcError::BadArg) <==> bytes.len()
            > 0 && !fmc.span_at(addr, bytes.len() as int)),
        fmc.programming(b0, b1, addr, bytes, r) && r == Err::<(), _>(FmcError::BadArg) ==> b1 == b0,
        fmc.programming(b0, b1, addr, bytes, r) && bytes.len() == 0 ==> b1 == b0 && r is Ok,
{
}

/// Programming is refused for want of an erased halfword only where one was read, after erased ones
/// in all places before it, and then nothing was stored.
pub proof fn law_unerased_is_seen<B: Bus>(
    fmc: Fmc,
    b0: B,
    b1: B,
    addr: u32,
    bytes: Seq<u8>,
)
    requires
        fmc.programming(b0, b1, addr, bytes, Err(FmcError::NotErased)),
    ensures
        b1.log().len() > b0.log().len(),
        ({
            let n = b1.log().len() - b0.log().len() - 1;
            &&& n < bytes.len() / 2
            &&& b1.log().last() matches Access::LoadHalf { addr: a, value } && a == (addr + 2 * n)
                as u32 && value != 0xFFFF
            &&& trace::words(b1.log()) == trace::words(b0.log())
        }),
{
    broadcast use trace::words_push;

    let (n, held) = choose|n: nat, held: u16|
        {
            &&& n < bytes.len() / 2
            &&& held != ERASED
            &&& reg::ran(b0, b1, #[trigger] spent_script(addr, n, held))
        };
    let step = Step::LoadHalf { addr: (addr + 2 * n) as u32, value: held };
    let mid = reg::last_step(b0.log(), b1.log(), scan_script(addr, n), step);
    scan_on_part(b0.log(), mid, addr, n);
}

/// A started erase is the erase and the start; what is cleared is the end and the two errors; every
/// size that a part can report, in KiB, is within the largest, and the last one reaches it.
pub proof fn law_codes(kib: u16)
    ensures
        CTL_PER + CTL_START == CTL_PER_START,
        STAT_ENDF + STAT_WPERR + STAT_PGERR == STAT_CLEAR,
        kib * 1024 <= FLASH_MAX,
        kib == u16::MAX ==> kib * 1024 == FLASH_MAX,
{
}

} // verus!
