//! The fault-safe probe.
//!
//! The families put GPIOA at different addresses, and the address of the other family is reserved:
//! reading it raises a bus fault. The probe reads under an armed fault window, in which the fault
//! is caught and means that nothing is there. With the family known, it counts the advanced timers
//! and the ADCs by writing a pattern to a harmless register of each and looking whether it stays.
//!
//! For the probe the vector table is replaced by a copy whose bus fault vector is the handler's.

use vstd::prelude::*;

use crate::bits;
use crate::detect::{Family, FLASH_DENSITY_ADDR};
use crate::reg::{self, Bus, Reg16, Reg32, Step};
use crate::trace;

verus! {

/// The words of a vector table that can be reached while no interrupt is enabled: the stack
/// pointer and the system exceptions.
pub const VECTOR_TABLE_LEN: usize = 16;

/// The place of the bus fault vector.
pub const BUSFAULT_VECTOR_INDEX: usize = 5;

/// Where the bus fault vector is in a table, at four bytes a vector.
pub const BUSFAULT_VECTOR_OFFSET: u32 = 0x14;

/// The alignment of a vector table.
pub const VTOR_ALIGN: u32 = 128;

/// The vector table offset register.
pub const VTOR_ADDR: u32 = 0xE000_ED08;

/// The system handler control and state register.
pub const SHCSR_ADDR: u32 = 0xE000_ED24;

/// The bus fault handler is enabled.
pub const SHCSR_BUSFAULTENA: u32 = 0x0002_0000;

/// The configurable fault status register.
pub const CFSR_ADDR: u32 = 0xE000_ED28;

/// The clock controller, at the same address on both families.
pub const RCU_BASE: u32 = 0x4002_1000;

pub const RCU_AHBEN: u32 = 0x14;

pub const RCU_APB2EN: u32 = 0x18;

/// The offset of the register that clocks timers and ADCs.
pub const RCU_APB2EN_OFFSET: u32 = 0x18;

pub const F1X0_PAEN_BIT: u32 = 17;

pub const F10X_PAEN_BIT: u32 = 2;

pub const F1X0_GPIOA_BASE: u32 = 0x4800_0000;

pub const F10X_GPIOA_BASE: u32 = 0x4001_0800;

/// A register that can be written without effect: the prescaler of a timer, a watchdog threshold
/// of an ADC.
pub const SCRATCH_OFFSET: u32 = 0x28;

pub const SCRATCH_RESET: u32 = 0x0000_0000;

pub const SCRATCH_PATTERN: u32 = 0x0000_5A5A;

/// The bits that both keep.
pub const SCRATCH_RETAIN_MASK: u32 = 0x0000_0FFF;

/// The word of an exception frame that holds the program counter.
pub const STACKED_PC_INDEX: usize = 6;

/// What the probe found.
#[derive(Debug, Clone, Copy, PartialEq, Eq, Structural)]
pub struct Detected {
    pub family: Family,
    pub flash_kib: u16,
    pub adv_timers: u8,
    pub adc_count: u8,
}

/// How many advanced timers and ADCs there are.
#[derive(Debug, Clone, Copy, PartialEq, Eq, Structural)]
pub struct MeasuredCounts {
    pub adv_timers: u8,
    pub adc_count: u8,
}

/// Where the probe's vector table is put, and its bus fault handler.
#[derive(Debug, Clone, Copy, PartialEq, Eq, Structural)]
pub struct ProbeTable {
    pub addr: u32,
    pub entry: u32,
}

// --- the vector table -------------------------------------------------------------------------

/// An address rounded up to the alignment of a vector table.
pub open spec fn aligned(addr: u32) -> u32 {
    addr.wrapping_add(127) & !127u32
}

/// An address rounded up to the alignment of a vector table.
pub fn vector_table_base(addr: u32) -> (r: u32)
    ensures
        r == aligned(addr),
{
    addr.wrapping_add(VTOR_ALIGN - 1) & !(VTOR_ALIGN - 1)
}

/// A rounded address is aligned. Below the last 127 addresses it is the first aligned one that is
/// not below the address given.
pub proof fn law_table_base_is_aligned(addr: u32)
    ensures
        aligned(addr) % 128 == 0,
        addr <= u32::MAX - 127 ==> addr <= aligned(addr) < addr + 128,
{
    let a = addr.wrapping_add(127);
    assert((a & !127u32) % 128 == 0 && a & !127u32 <= a && a < (a & !127u32) + 128) by (bit_vector);
}

/// Copying `n` words from `src` to `dst`.
pub open spec fn copy_script(src: u32, dst: u32, words: Seq<u32>, n: nat) -> Seq<Step>
    decreases n,
{
    if n == 0 {
        Seq::empty()
    } else {
        let offset = (4 * (n - 1)) as u32;
        copy_script(src, dst, words, (n - 1) as nat).push(
            Step::Load { addr: reg::at(src, offset), value: words[n - 1] },
        ).push(Step::Store { addr: reg::at(dst, offset), value: words[n - 1] })
    }
}

/// Copying a vector table and entering the bus fault handler.
pub open spec fn table_script(table: ProbeTable, active: u32, words: Seq<u32>) -> Seq<Step> {
    copy_script(active, table.addr, words, VECTOR_TABLE_LEN as nat).push(
        Step::Store { addr: reg::at(table.addr, BUSFAULT_VECTOR_OFFSET), value: table.entry },
    )
}

/// Pointing the core at a vector table.
pub open spec fn vtor_script(base: u32) -> Seq<Step> {
    Seq::empty().push(Step::Store { addr: VTOR_ADDR, value: base }).push(Step::Fence)
}

/// Replacing the vector table at `active` by the probe's.
pub open spec fn install_script(table: ProbeTable, active: u32, words: Seq<u32>) -> Seq<Step> {
    seq![Step::Load { addr: VTOR_ADDR, value: active }] + table_script(table, active, words)
        + vtor_script(aligned(table.addr))
}

/// The probe's vector table replaces the one at `active`, whatever it holds.
pub open spec fn installed<B: Bus>(b0: B, b1: B, table: ProbeTable, active: u32) -> bool {
    exists|words: Seq<u32>| reg::ran(b0, b1, #[trigger] install_script(table, active, words))
}

/// Fill the probe's vector table from the one in use.
fn build_probe_vector_table<B: Bus>(bus: &mut B, table: ProbeTable, active: u32) -> (words:
    Ghost<Seq<u32>>)
    ensures
        reg::ran(*old(bus), *final(bus), table_script(table, active, words@)),
{
    broadcast use reg::ran_then;

    let ghost b0 = *bus;
    let ghost mut words: Seq<u32> = Seq::empty();
    let mut i: usize = 0;
    proof {
        reg::ran_nothing(*bus);
    }
    while i < VECTOR_TABLE_LEN
        invariant
            b0 == *old(bus),
            i <= VECTOR_TABLE_LEN,
            words.len() == i,
            reg::ran(b0, *bus, copy_script(active, table.addr, words, i as nat)),
        decreases VECTOR_TABLE_LEN - i,
    {
        broadcast use reg::ran_then;

        let offset: u32 = 4 * i as u32;
        let word: u32 = Reg32::new(active, offset).read(bus);
        Reg32::new(table.addr, offset).write(bus, word);
        proof {
            let more = words.push(word);
            copy_prefix(active, table.addr, words, more, i as nat);
            assert(copy_script(active, table.addr, more, (i + 1) as nat) == copy_script(
                active,
                table.addr,
                more,
                i as nat,
            ).push(Step::Load { addr: reg::at(active, offset), value: word }).push(
                Step::Store { addr: reg::at(table.addr, offset), value: word },
            ));
            words = more;
        }
        i = i + 1;
    }
    Reg32::new(table.addr, BUSFAULT_VECTOR_OFFSET).write(bus, table.entry);
    Ghost(words)
}

proof fn copy_prefix(src: u32, dst: u32, w1: Seq<u32>, w2: Seq<u32>, n: nat)
    requires
        n <= w1.len(),
        n <= w2.len(),
        forall|i: int| 0 <= i < n ==> w1[i] == w2[i],
    ensures
        copy_script(src, dst, w1, n) == copy_script(src, dst, w2, n),
    decreases n,
{
    if n > 0 {
        copy_prefix(src, dst, w1, w2, (n - 1) as nat);
    }
}

fn write_vtor<B: Bus>(bus: &mut B, base: u32)
    ensures
        reg::ran(*old(bus), *final(bus), vtor_script(base)),
{
    broadcast use reg::ran_then;

    proof {
        reg::ran_nothing(*bus);
        assert(reg::at(VTOR_ADDR, 0) == VTOR_ADDR);
    }
    Reg32::new(VTOR_ADDR, 0).write(bus, base);
    reg::fence(bus);
}

/// Replace the vector table by the probe's; the one in use until then.
pub fn install_probe_vector_table<B: Bus>(bus: &mut B, table: ProbeTable) -> (active: u32)
    ensures
        installed(*old(bus), *final(bus), table, active),
{
    let ghost b0 = *bus;
    let active: u32 = Reg32::new(VTOR_ADDR, 0).read(bus);
    let ghost b1 = *bus;
    let words: Ghost<Seq<u32>> = build_probe_vector_table(bus, table, active);
    let ghost b2 = *bus;
    write_vtor(bus, vector_table_base(table.addr));
    proof {
        let look = Step::Load { addr: VTOR_ADDR, value: active };
        assert(reg::at(VTOR_ADDR, 0) == VTOR_ADDR);
        reg::ran_one(b0, b1, look);
        reg::ran_append(b0, b1, b2, seq![look], table_script(table, active, words@));
        reg::ran_append(
            b0,
            b2,
            *bus,
            seq![look] + table_script(table, active, words@),
            vtor_script(aligned(table.addr)),
        );
        assert(reg::ran(b0, *bus, install_script(table, active, words@)));
    }
    active
}

/// Point the core back at the vector table it used before.
pub fn restore_vector_table<B: Bus>(bus: &mut B, active: u32)
    ensures
        reg::ran(*old(bus), *final(bus), vtor_script(active)),
{
    write_vtor(bus, active)
}

// --- the bus fault handler --------------------------------------------------------------------

/// What the probe and the bus fault handler tell each other.
#[derive(Debug, Clone, Copy, PartialEq, Eq, Structural)]
pub struct FaultWindow {
    /// A fault is expected.
    pub expecting: bool,
    /// The address being read.
    pub probed: u32,
    /// The read faulted.
    pub faulted: bool,
}

impl FaultWindow {
    /// No fault is expected.
    pub fn new() -> (r: FaultWindow)
        ensures
            r == (FaultWindow { expecting: false, probed: 0, faulted: false }),
    {
        FaultWindow { expecting: false, probed: 0, faulted: false }
    }

    /// Expect a fault of the read of `addr`.
    pub fn open(&mut self, addr: u32)
        ensures
            *final(self) == (FaultWindow { expecting: true, probed: addr, faulted: false }),
    {
        self.probed = addr;
        self.faulted = false;
        self.expecting = true;
    }

    /// Expect no fault any more; `value` if the read did not fault.
    pub fn close(&mut self, value: u32) -> (r: Option<u32>)
        ensures
            *final(self) == (FaultWindow { expecting: false, ..*old(self) }),
            r == (if old(self).faulted {
                None
            } else {
                Some(value)
            }),
    {
        self.expecting = false;
        if self.faulted {
            None
        } else {
            Some(value)
        }
    }
}

/// The length of a Thumb instruction, by its first halfword.
pub open spec fn instr_bytes(first_halfword: u16) -> u32 {
    if first_halfword & 0xF800 >= 0xE800 {
        4
    } else {
        2
    }
}

/// The length of a Thumb instruction, by its first halfword: four bytes where the top five bits
/// are 29, 30 or 31, else two.
pub fn thumb_instr_bytes(first_halfword: u16) -> (r: u32)
    ensures
        r == instr_bytes(first_halfword),
{
    if first_halfword & 0xF800 >= 0xE800 {
        4
    } else {
        2
    }
}

/// The address of the instruction after the one at `stacked_pc`.
pub fn resume_pc_after_probe_load(stacked_pc: u32, first_halfword: u16) -> (r: u32)
    ensures
        r == stacked_pc.wrapping_add(instr_bytes(first_halfword)),
{
    stacked_pc.wrapping_add(thumb_instr_bytes(first_halfword))
}

/// Where execution goes on after a fault of the probe's load: past the instruction if the stacked
/// address is inside the probe's load function, which begins at `lo` and ends before `hi`, else
/// where it was, at an instruction not executed yet.
pub open spec fn resumed(stacked_pc: u32, lo: u32, hi: u32, first_halfword: u16) -> u32 {
    if lo <= stacked_pc < hi {
        stacked_pc.wrapping_add(instr_bytes(first_halfword))
    } else {
        stacked_pc
    }
}

/// Where execution goes on after a fault of the probe's load.
pub fn resume_pc_range_gated(stacked_pc: u32, lo: u32, hi: u32, first_halfword: u16) -> (r: u32)
    ensures
        r == resumed(stacked_pc, lo, hi, first_halfword),
{
    if stacked_pc >= lo && stacked_pc < hi {
        resume_pc_after_probe_load(stacked_pc, first_halfword)
    } else {
        stacked_pc
    }
}

/// An instruction address stays even: a resumed program keeps its alignment.
pub proof fn law_resumed_pc_stays_even(stacked_pc: u32, lo: u32, hi: u32, first_halfword: u16)
    requires
        stacked_pc % 2 == 0,
    ensures
        resumed(stacked_pc, lo, hi, first_halfword) % 2 == 0,
{
}

/// Clearing the fault status, which reads `cfsr`, by writing it back.
pub open spec fn acknowledge_script(cfsr: u32) -> Seq<Step> {
    Seq::empty().push(Step::Load { addr: CFSR_ADDR, value: cfsr }).push(
        Step::Store { addr: CFSR_ADDR, value: cfsr },
    )
}

/// What the bus fault handler does with a fault that was expected: the fault status, which reads
/// `cfsr`, is cleared, and where the stacked address `pc` is inside the probe's load, the
/// instruction there, whose first halfword is `hw`, is looked at.
pub open spec fn fault_script(cfsr: u32, pc: u32, extent: (u32, u32), hw: u16) -> Seq<Step> {
    if extent.0 <= pc < extent.1 {
        acknowledge_script(cfsr).push(Step::LoadHalf { addr: pc & !1u32, value: hw })
    } else {
        acknowledge_script(cfsr)
    }
}

/// Handle a bus fault; `extent` is where the probe's load function begins and ends. A fault that
/// was not expected is not handled and nothing changes. One that was is noted, and of the frame
/// only the program counter changes.
pub fn on_bus_fault<B: Bus>(
    bus: &mut B,
    window: &mut FaultWindow,
    frame: &mut [u32; 8],
    extent: (u32, u32),
) -> (handled: bool)
    ensures
        handled == old(window).expecting,
        !handled ==> {
            &&& *final(bus) == *old(bus)
            &&& *final(window) == *old(window)
            &&& final(frame)@ == old(frame)@
        },
        handled ==> {
            &&& *final(window) == (FaultWindow { faulted: true, ..*old(window) })
            &&& exists|cfsr: u32, hw: u16|
                {
                    &&& reg::ran(
                        *old(bus),
                        *final(bus),
                        #[trigger] fault_script(cfsr, old(frame)@[6], extent, hw),
                    )
                    &&& final(frame)@ == old(frame)@.update(
                        6,
                        resumed(old(frame)@[6], extent.0, extent.1, hw),
                    )
                }
        },
{
    broadcast use reg::ran_then;

    if !window.expecting {
        return false;
    }
    let ghost b0 = *bus;
    proof {
        reg::ran_nothing(b0);
        assert(reg::at(CFSR_ADDR, 0) == CFSR_ADDR);
    }
    let cfsr: u32 = Reg32::new(CFSR_ADDR, 0).read(bus);
    Reg32::new(CFSR_ADDR, 0).write(bus, cfsr);
    assert(reg::ran(b0, *bus, acknowledge_script(cfsr)));
    let pc: u32 = frame[STACKED_PC_INDEX];
    let (lo, hi): (u32, u32) = extent;
    let mut first_halfword: u16 = 0;
    if pc >= lo && pc < hi {
        let at: u32 = pc & !1u32;
        assert(reg::at(at, 0) == at);
        first_halfword = Reg16::new(at, 0).read(bus);
        frame[STACKED_PC_INDEX] = resume_pc_range_gated(pc, lo, hi, first_halfword);
    }
    window.faulted = true;
    proof {
        assert(reg::ran(b0, *bus, fault_script(cfsr, pc, extent, first_halfword)));
        assert(frame@ =~= old(frame)@.update(6, resumed(pc, lo, hi, first_halfword)));
    }
    true
}

// --- arming -----------------------------------------------------------------------------------

/// Setting the bus fault enable in a register that reads `shcsr`.
pub open spec fn arm_script(shcsr: u32, enable: bool) -> Seq<Step> {
    Seq::empty().push(Step::Load { addr: SHCSR_ADDR, value: shcsr }).push(
        Step::Store {
            addr: SHCSR_ADDR,
            value: if enable {
                shcsr | SHCSR_BUSFAULTENA
            } else {
                shcsr & !SHCSR_BUSFAULTENA
            },
        },
    )
}

/// The bus fault handler is enabled or disabled; `was` tells whether it was enabled before.
pub open spec fn armed<B: Bus>(b0: B, b1: B, enable: bool, was: bool) -> bool {
    exists|shcsr: u32|
        {
            &&& reg::ran(b0, b1, #[trigger] arm_script(shcsr, enable))
            &&& was == (shcsr & SHCSR_BUSFAULTENA != 0)
        }
}

fn shcsr_set_busfaultena<B: Bus>(bus: &mut B, enable: bool) -> (was: bool)
    ensures
        armed(*old(bus), *final(bus), enable, was),
{
    broadcast use reg::ran_then;

    proof {
        reg::ran_nothing(*bus);
        assert(reg::at(SHCSR_ADDR, 0) == SHCSR_ADDR);
    }
    let prev: u32 = Reg32::new(SHCSR_ADDR, 0).read(bus);
    if enable {
        Reg32::new(SHCSR_ADDR, 0).write(bus, prev | SHCSR_BUSFAULTENA);
    } else {
        Reg32::new(SHCSR_ADDR, 0).write(bus, prev & !SHCSR_BUSFAULTENA);
    }
    assert(reg::ran(*old(bus), *bus, arm_script(prev, enable)));
    prev & SHCSR_BUSFAULTENA != 0
}

/// Enable the bus fault handler; whether it was enabled before.
pub fn arm_busfault<B: Bus>(bus: &mut B) -> (was: bool)
    ensures
        armed(*old(bus), *final(bus), true, was),
{
    shcsr_set_busfaultena(bus, true)
}

/// The bus fault handler is disabled again, unless it was enabled before.
pub open spec fn disarmed<B: Bus>(b0: B, b1: B, was: bool) -> bool {
    if was {
        b1 == b0
    } else {
        exists|was_now: bool| #[trigger] armed(b0, b1, false, was_now)
    }
}

/// Disable the bus fault handler, unless it was enabled before.
pub fn disarm_busfault<B: Bus>(bus: &mut B, was: bool)
    ensures
        disarmed(*old(bus), *final(bus), was),
{
    if !was {
        let _: bool = shcsr_set_busfaultena(bus, false);
    }
}

// --- probing ----------------------------------------------------------------------------------

/// A read under the armed window, with everything before it complete and nothing after it begun.
pub open spec fn probe_script(addr: u32, value: Option<u32>) -> Seq<Step> {
    Seq::empty().push(Step::Fence).push(Step::Probe { addr, value }).push(Step::Fence)
}

/// Read an address that may not be there: nothing where it is not.
pub fn probe_present<B: Bus>(bus: &mut B, addr: u32) -> (r: Option<u32>)
    ensures
        reg::ran(*old(bus), *final(bus), probe_script(addr, r)),
{
    broadcast use reg::ran_then;

    proof {
        reg::ran_nothing(*bus);
    }
    reg::fence(bus);
    let value: Option<u32> = reg::probe(bus, addr);
    reg::fence(bus);
    value
}

/// Setting a bit of a clock register.
pub open spec fn clock_step(reg_off: u32, bit: u32) -> Step {
    Step::Modify { addr: reg::at(RCU_BASE, reg_off), mask: 1u32 << bit, bits: 1u32 << bit }
}

fn rcu_set_bit<B: Bus>(bus: &mut B, reg_off: u32, bit: u32)
    requires
        bit < 32,
    ensures
        reg::did(*old(bus), *final(bus), clock_step(reg_off, bit)),
{
    Reg32::new(RCU_BASE, reg_off).modify(bus, 1u32 << bit, 1u32 << bit);
}

/// Setting a bit of a clock register and reading the register back.
pub open spec fn sticky_script(reg_off: u32, bit: u32, readback: u32) -> Seq<Step> {
    Seq::empty().push(clock_step(reg_off, bit)).push(
        Step::Load { addr: reg::at(RCU_BASE, reg_off), value: readback },
    )
}

/// Set a bit of a clock register; whether it stays set.
pub fn rcu_enable_sticky<B: Bus>(bus: &mut B, reg_off: u32, bit: u32) -> (r: bool)
    requires
        bit < 32,
    ensures
        exists|readback: u32|
            {
                &&& reg::ran(*old(bus), *final(bus), #[trigger] sticky_script(reg_off, bit, readback))
                &&& r == (readback & (1u32 << bit) != 0)
            },
{
    broadcast use reg::ran_then;

    proof {
        reg::ran_nothing(*bus);
    }
    rcu_set_bit(bus, reg_off, bit);
    let readback: u32 = Reg32::new(RCU_BASE, reg_off).read(bus);
    assert(reg::ran(*old(bus), *bus, sticky_script(reg_off, bit, readback)));
    readback & (1u32 << bit) != 0
}

/// Clocking a GPIO port and looking for it.
pub open spec fn candidate_script(reg_off: u32, bit: u32, base: u32, value: Option<u32>) -> Seq<
    Step,
> {
    seq![clock_step(reg_off, bit)] + probe_script(base, value)
}

/// Looking for GPIOA where F1x0 has it, and if it is not there, where F10x has it.
pub open spec fn family_script(f1x0: Option<u32>, f10x: Option<u32>) -> Seq<Step> {
    let first = candidate_script(RCU_AHBEN, F1X0_PAEN_BIT, F1X0_GPIOA_BASE, f1x0);
    if f1x0 is Some {
        first
    } else {
        first + candidate_script(RCU_APB2EN, F10X_PAEN_BIT, F10X_GPIOA_BASE, f10x)
    }
}

/// The family the two answers stand for.
pub open spec fn family_of(f1x0: Option<u32>, f10x: Option<u32>) -> Option<Family> {
    if f1x0 is Some {
        Some(Family::F1x0)
    } else if f10x is Some {
        Some(Family::F10x)
    } else {
        None
    }
}

/// The family is told by the two answers.
pub open spec fn told<B: Bus>(b0: B, b1: B, family: Option<Family>) -> bool {
    exists|f1x0: Option<u32>, f10x: Option<u32>|
        {
            &&& reg::ran(b0, b1, #[trigger] family_script(f1x0, f10x))
            &&& family == family_of(f1x0, f10x)
        }
}

fn probe_candidate<B: Bus>(bus: &mut B, reg_off: u32, bit: u32, base: u32) -> (r: Option<u32>)
    requires
        bit < 32,
    ensures
        reg::ran(*old(bus), *final(bus), candidate_script(reg_off, bit, base, r)),
{
    let ghost b0 = *bus;
    rcu_set_bit(bus, reg_off, bit);
    let ghost b1 = *bus;
    let r: Option<u32> = probe_present(bus, base);
    proof {
        reg::ran_one(b0, b1, clock_step(reg_off, bit));
        reg::ran_append(b0, b1, *bus, seq![clock_step(reg_off, bit)], probe_script(base, r));
    }
    r
}

/// Tell the family.
pub fn probe_family<B: Bus>(bus: &mut B) -> (r: Option<Family>)
    ensures
        told(*old(bus), *final(bus), r),
{
    let ghost b0 = *bus;
    let f1x0: Option<u32> = probe_candidate(bus, RCU_AHBEN, F1X0_PAEN_BIT, F1X0_GPIOA_BASE);
    let ghost b1 = *bus;
    if f1x0.is_some() {
        assert(reg::ran(b0, b1, family_script(f1x0, None)));
        return Some(Family::F1x0);
    }
    let f10x: Option<u32> = probe_candidate(bus, RCU_APB2EN, F10X_PAEN_BIT, F10X_GPIOA_BASE);
    proof {
        reg::ran_append(
            b0,
            b1,
            *bus,
            candidate_script(RCU_AHBEN, F1X0_PAEN_BIT, F1X0_GPIOA_BASE, f1x0),
            candidate_script(RCU_APB2EN, F10X_PAEN_BIT, F10X_GPIOA_BASE, f10x),
        );
        assert(reg::ran(b0, *bus, family_script(f1x0, f10x)));
    }
    if f10x.is_some() {
        return Some(Family::F10x);
    }
    None
}

// --- counting ---------------------------------------------------------------------------------

/// Writing the pattern to a register that answered, reading it back, and clearing it. A register
/// that did not answer is left alone.
pub open spec fn scratch_script(addr: u32, first: Option<u32>, second: Option<u32>) -> Seq<Step> {
    if first is None {
        probe_script(addr, first)
    } else {
        (probe_script(addr, first).push(Step::Store { addr, value: SCRATCH_PATTERN })
            + probe_script(addr, second)).push(Step::Store { addr, value: SCRATCH_RESET })
    }
}

/// Whether a register kept the pattern.
pub open spec fn kept(first: Option<u32>, second: Option<u32>) -> bool {
    first is Some && match second {
        Some(v) => v & SCRATCH_RETAIN_MASK == SCRATCH_PATTERN & SCRATCH_RETAIN_MASK,
        None => 0u32 & SCRATCH_RETAIN_MASK == SCRATCH_PATTERN & SCRATCH_RETAIN_MASK,
    }
}

/// Whether there is something at `base`, and the two answers it gave.
fn scratch_present<B: Bus>(bus: &mut B, base: u32) -> (r: (bool, Ghost<
    (Option<u32>, Option<u32>),
>))
    ensures
        reg::ran(
            *old(bus),
            *final(bus),
            scratch_script(reg::at(base, SCRATCH_OFFSET), r.1@.0, r.1@.1),
        ),
        r.0 == kept(r.1@.0, r.1@.1),
{
    broadcast use reg::ran_then;

    let ghost b0 = *bus;
    let cell = Reg32::new(base, SCRATCH_OFFSET);
    let first: Option<u32> = probe_present(bus, cell.addr);
    if first.is_none() {
        return (false, Ghost((first, None)));
    }
    cell.write(bus, SCRATCH_PATTERN);
    let ghost b1 = *bus;
    let second: Option<u32> = probe_present(bus, cell.addr);
    let ghost b2 = *bus;
    let readback: u32 = match second {
        Some(v) => v,
        None => 0,
    };
    let retained: bool = readback & SCRATCH_RETAIN_MASK == SCRATCH_PATTERN & SCRATCH_RETAIN_MASK;
    proof {
        reg::ran_append(
            b0,
            b1,
            b2,
            probe_script(cell.addr, first).push(
                Step::Store { addr: cell.addr, value: SCRATCH_PATTERN },
            ),
            probe_script(cell.addr, second),
        );
    }
    cell.write(bus, SCRATCH_RESET);
    (retained, Ghost((first, second)))
}

/// The timers and ADCs looked for, timers first: the address of each and the bit that clocks it.
pub open spec fn places() -> Seq<(u32, u32)> {
    Seq::empty().push((0x4001_2C00u32, 11u32)).push((0x4001_3400u32, 13u32)).push(
        (0x4001_2400u32, 9u32),
    ).push((0x4001_2800u32, 10u32)).push((0x4001_3C00u32, 15u32))
}

fn place(i: usize) -> (r: (u32, u32))
    requires
        i < 5,
    ensures
        r == places()[i as int],
        r.1 < 32,
{
    match i {
        0 => (0x4001_2C00, 11),
        1 => (0x4001_3400, 13),
        2 => (0x4001_2400, 9),
        3 => (0x4001_2800, 10),
        _ => (0x4001_3C00, 15),
    }
}

/// Clocking and trying the first `n` places; `answers` holds what each gave.
pub open spec fn tries_script(answers: Seq<(Option<u32>, Option<u32>)>, n: nat) -> Seq<Step>
    decreases n,
{
    if n == 0 {
        Seq::empty()
    } else {
        let (base, bit) = places()[n - 1];
        tries_script(answers, (n - 1) as nat).push(clock_step(RCU_APB2EN, bit)) + scratch_script(
            reg::at(base, SCRATCH_OFFSET),
            answers[n - 1].0,
            answers[n - 1].1,
        )
    }
}

/// How many of the places from `from` on, before `to`, kept the pattern.
pub open spec fn tally(answers: Seq<(Option<u32>, Option<u32>)>, from: int, to: int) -> nat
    decreases to - from,
{
    if to <= from {
        0
    } else {
        tally(answers, from, to - 1) + if kept(answers[to - 1].0, answers[to - 1].1) {
            1nat
        } else {
            0nat
        }
    }
}

/// Trying every place, with the clock register, which reads `saved`, restored afterwards.
pub open spec fn count_script(saved: u32, answers: Seq<(Option<u32>, Option<u32>)>) -> Seq<Step> {
    (seq![Step::Load { addr: reg::at(RCU_BASE, RCU_APB2EN), value: saved }] + tries_script(
        answers,
        5,
    )).push(Step::Store { addr: reg::at(RCU_BASE, RCU_APB2EN), value: saved })
}

/// The timers and ADCs are counted by the answers their places give.
pub open spec fn counted<B: Bus>(b0: B, b1: B, counts: MeasuredCounts) -> bool {
    exists|saved: u32, answers: Seq<(Option<u32>, Option<u32>)>|
        {
            &&& reg::ran(b0, b1, #[trigger] count_script(saved, answers))
            &&& counts.adv_timers == tally(answers, 0, 2)
            &&& counts.adc_count == tally(answers, 2, 5)
        }
}

proof fn tries_prefix(
    a1: Seq<(Option<u32>, Option<u32>)>,
    a2: Seq<(Option<u32>, Option<u32>)>,
    n: nat,
)
    requires
        forall|i: int| 0 <= i < n ==> a1[i] == a2[i],
    ensures
        tries_script(a1, n) == tries_script(a2, n),
    decreases n,
{
    if n > 0 {
        tries_prefix(a1, a2, (n - 1) as nat);
    }
}

proof fn tally_prefix(
    a1: Seq<(Option<u32>, Option<u32>)>,
    a2: Seq<(Option<u32>, Option<u32>)>,
    from: int,
    to: int,
)
    requires
        forall|i: int| from <= i < to ==> a1[i] == a2[i],
    ensures
        tally(a1, from, to) == tally(a2, from, to),
    decreases to - from,
{
    if from < to {
        tally_prefix(a1, a2, from, to - 1);
    }
}

fn count<B: Bus>(bus: &mut B) -> (r: MeasuredCounts)
    ensures
        counted(*old(bus), *final(bus), r),
{
    let ghost b0 = *bus;
    let apb2en = Reg32::new(RCU_BASE, RCU_APB2EN);
    let saved: u32 = apb2en.read(bus);
    let ghost b1 = *bus;
    let ghost mut answers: Seq<(Option<u32>, Option<u32>)> = Seq::empty();
    let mut adv_timers: u8 = 0;
    let mut adc_count: u8 = 0;
    let mut i: usize = 0;
    proof {
        reg::ran_nothing(*bus);
    }
    while i < 5
        invariant
            i <= 5,
            answers.len() == i,
            adv_timers <= i,
            adc_count <= i,
            adv_timers == tally(
                answers,
                0,
                if i < 2 {
                    i as int
                } else {
                    2
                },
            ),
            adc_count == tally(
                answers,
                2,
                if i < 2 {
                    2
                } else {
                    i as int
                },
            ),
            reg::ran(b1, *bus, tries_script(answers, i as nat)),
        decreases 5 - i,
    {
        broadcast use reg::ran_then;

        let (base, bit): (u32, u32) = place(i);
        rcu_set_bit(bus, RCU_APB2EN, bit);
        let ghost b2 = *bus;
        let (present, Ghost(answer)) = scratch_present(bus, base);
        proof {
            let more = answers.push(answer);
            let so_far = tries_script(answers, i as nat).push(clock_step(RCU_APB2EN, bit));
            let attempt = scratch_script(reg::at(base, SCRATCH_OFFSET), answer.0, answer.1);
            reg::ran_append(b1, b2, *bus, so_far, attempt);
            tries_prefix(answers, more, i as nat);
            assert(tries_script(more, (i + 1) as nat) == so_far + attempt);
            tally_prefix(answers, more, 0, if i < 2 { i as int } else { 2 });
            tally_prefix(answers, more, 2, if i < 2 { 2 } else { i as int });
            assert(more[i as int] == answer);
            answers = more;
        }
        if present {
            if i < 2 {
                adv_timers = adv_timers + 1;
            } else {
                adc_count = adc_count + 1;
            }
        }
        i = i + 1;
    }
    let ghost b3 = *bus;
    apb2en.write(bus, saved);
    proof {
        let look = Step::Load { addr: apb2en.addr, value: saved };
        reg::ran_one(b0, b1, look);
        reg::ran_append(b0, b1, b3, seq![look], tries_script(answers, 5));
        reg::ran_then(
            b0,
            b3,
            *bus,
            seq![look] + tries_script(answers, 5),
            Step::Store { addr: apb2en.addr, value: saved },
        );
        assert(reg::ran(b0, *bus, count_script(saved, answers)));
    }
    MeasuredCounts { adv_timers, adc_count }
}

/// The timers and ADCs are counted with the probe's vector table in place and the bus fault
/// handler enabled, and both are put back as they were.
pub open spec fn measured<B: Bus>(b0: B, b1: B, table: ProbeTable, counts: MeasuredCounts) -> bool {
    exists|m1: B, m2: B, m3: B, m4: B, active: u32, was: bool|
        {
            &&& #[trigger] installed(b0, m1, table, active)
            &&& #[trigger] armed(m1, m2, true, was)
            &&& #[trigger] counted(m2, m3, counts)
            &&& #[trigger] disarmed(m3, m4, was)
            &&& reg::ran(m4, b1, vtor_script(active))
        }
}

/// Count the advanced timers and the ADCs.
pub fn measure_counts<B: Bus>(bus: &mut B, table: ProbeTable) -> (r: MeasuredCounts)
    ensures
        measured(*old(bus), *final(bus), table, r),
{
    let ghost b0 = *bus;
    let active: u32 = install_probe_vector_table(bus, table);
    let ghost m1 = *bus;
    let was: bool = arm_busfault(bus);
    let ghost m2 = *bus;
    let counts: MeasuredCounts = count(bus);
    let ghost m3 = *bus;
    disarm_busfault(bus, was);
    let ghost m4 = *bus;
    restore_vector_table(bus, active);
    proof {
        assert(installed(b0, m1, table, active));
        assert(armed(m1, m2, true, was));
        assert(counted(m2, m3, counts));
        assert(disarmed(m3, m4, was));
    }
    counts
}

/// The family is told with the probe's vector table in place and the bus fault handler enabled,
/// and both are put back as they were.
pub open spec fn recognised<B: Bus>(b0: B, b1: B, table: ProbeTable, family: Option<Family>) -> bool {
    exists|m1: B, m2: B, m3: B, m4: B, active: u32, was: bool|
        {
            &&& #[trigger] installed(b0, m1, table, active)
            &&& #[trigger] armed(m1, m2, true, was)
            &&& #[trigger] told(m2, m3, family)
            &&& #[trigger] disarmed(m3, m4, was)
            &&& reg::ran(m4, b1, vtor_script(active))
        }
}

fn recognise<B: Bus>(bus: &mut B, table: ProbeTable) -> (family: Option<Family>)
    ensures
        recognised(*old(bus), *final(bus), table, family),
{
    let ghost b0 = *bus;
    let active: u32 = install_probe_vector_table(bus, table);
    let ghost m1 = *bus;
    let was: bool = arm_busfault(bus);
    let ghost m2 = *bus;
    let family: Option<Family> = probe_family(bus);
    let ghost m3 = *bus;
    disarm_busfault(bus, was);
    let ghost m4 = *bus;
    restore_vector_table(bus, active);
    proof {
        assert(installed(b0, m1, table, active));
        assert(armed(m1, m2, true, was));
        assert(told(m2, m3, family));
        assert(disarmed(m3, m4, was));
    }
    family
}

/// Reading the flash size register, which reads `word`.
pub open spec fn density_step(word: u32) -> Step {
    Step::Load { addr: FLASH_DENSITY_ADDR, value: word }
}

/// Read the flash size in KiB: the lower half of its register.
pub fn read_flash_density<B: Bus>(bus: &mut B) -> (r: u16)
    ensures
        reg::did(*old(bus), *final(bus), density_step(reg::last_load(final(bus).log()))),
        r == reg::last_load(final(bus).log()) & 0xFFFF,
{
    assert(reg::at(FLASH_DENSITY_ADDR, 0) == FLASH_DENSITY_ADDR);
    let word: u32 = Reg32::new(FLASH_DENSITY_ADDR, 0).read(bus);
    proof {
        bits::low_half(word);
    }
    (word & 0xFFFF) as u16
}

/// What the probe comes to: nothing where no family answers; else the family, the counts and the
/// flash size, observed in this order.
pub open spec fn observed<B: Bus>(b0: B, b1: B, table: ProbeTable, found: Option<Detected>) -> bool {
    match found {
        None => recognised(b0, b1, table, None),
        Some(d) => exists|m1: B, m2: B|
            {
                &&& #[trigger] recognised(b0, m1, table, Some(d.family))
                &&& #[trigger] measured(
                    m1,
                    m2,
                    table,
                    MeasuredCounts { adv_timers: d.adv_timers, adc_count: d.adc_count },
                )
                &&& reg::did(m2, b1, density_step(reg::last_load(b1.log())))
                &&& d.flash_kib == reg::last_load(b1.log()) & 0xFFFF
            },
    }
}

/// Probe the part.
pub fn run<B: Bus>(bus: &mut B, table: ProbeTable) -> (r: Option<Detected>)
    ensures
        observed(*old(bus), *final(bus), table, r),
{
    let ghost b0 = *bus;
    let family: Family = match recognise(bus, table) {
        Some(family) => family,
        None => {
            return None;
        },
    };
    let ghost m1 = *bus;
    let counts: MeasuredCounts = measure_counts(bus, table);
    let ghost m2 = *bus;
    let flash_kib: u16 = read_flash_density(bus);
    let found = Detected {
        family,
        flash_kib,
        adv_timers: counts.adv_timers,
        adc_count: counts.adc_count,
    };
    proof {
        assert(recognised(b0, m1, table, Some(found.family)));
        assert(measured(
            m1,
            m2,
            table,
            MeasuredCounts { adv_timers: found.adv_timers, adc_count: found.adc_count },
        ));
    }
    Some(found)
}

/// No part has more than two advanced timers and three ADCs counted.
pub proof fn law_counts_are_bounded<B: Bus>(b0: B, b1: B, counts: MeasuredCounts)
    requires
        counted(b0, b1, counts),
    ensures
        counts.adv_timers <= 2,
        counts.adc_count <= 3,
{
    let (saved, answers) = choose|saved: u32, answers: Seq<(Option<u32>, Option<u32>)>|
        {
            &&& reg::ran(b0, b1, #[trigger] count_script(saved, answers))
            &&& counts.adv_timers == tally(answers, 0, 2)
            &&& counts.adc_count == tally(answers, 2, 5)
        };
    reveal_with_fuel(tally, 4);
}

/// An instruction is four bytes long where its first halfword is 0xE800 or more, else two. A fault of
/// the probe's load resumes behind its instruction; a fault elsewhere where it was.
pub proof fn law_resume(pc: u32, lo: u32, hi: u32, first_halfword: u16)
    ensures
        instr_bytes(first_halfword) == (if first_halfword >= 0xE800 {
            4u32
        } else {
            2
        }),
        lo <= pc < hi ==> resumed(pc, lo, hi, first_halfword) == (pc + instr_bytes(first_halfword))
            % 0x1_0000_0000,
        !(lo <= pc < hi) ==> resumed(pc, lo, hi, first_halfword) == pc,
{
    bits::thumb(first_halfword, pc);
}

/// A fault is acknowledged by writing its status back as it was read, once; the instruction is looked
/// at, in one halfword at its even address, only inside the probe's load.
pub proof fn law_fault_is_acknowledged(cfsr: u32, pc: u32, extent: (u32, u32), hw: u16)
    ensures
        ({
            let script = fault_script(cfsr, pc, extent, hw);
            let read = Step::Load { addr: 0xE000_ED28, value: cfsr };
            let back = Step::Store { addr: 0xE000_ED28, value: cfsr };
            script == (if extent.0 <= pc < extent.1 {
                seq![read, back, Step::LoadHalf { addr: (pc - pc % 2) as u32, value: hw }]
            } else {
                seq![read, back]
            })
        }),
{
    bits::thumb(hw, pc);
}

/// Enabling bus faults sets one bit of the register and disabling clears it; every other bit is
/// stored back as it was read.
pub proof fn law_arming(shcsr: u32, enable: bool)
    ensures
        ({
            let script = arm_script(shcsr, enable);
            &&& script.len() == 2
            &&& script[0] == (Step::Load { addr: 0xE000_ED24, value: shcsr })
            &&& script[1] matches Step::Store { addr: 0xE000_ED24, value: v } && v & !0x0002_0000u32
                == shcsr & !0x0002_0000u32 && v & 0x0002_0000 == (if enable {
                0x0002_0000u32
            } else {
                0
            })
        }),
{
    bits::merge_fields(shcsr, 0x0002_0000, 0x0002_0000, 0);
    bits::merge_fields(shcsr, 0x0002_0000, 0, 0);
    bits::no_bits(0x0002_0000);
}

/// A register kept the pattern where it answered and gave twelve bits of it back.
pub proof fn law_kept(first: Option<u32>, second: Option<u32>)
    ensures
        kept(first, second) <==> first is Some && (second matches Some(v) && v & 0xFFF == 0xA5A),
{
    bits::masks();
}

/// A place that answers gets the pattern and is then cleared; one that does not is not written.
pub proof fn law_scratch(addr: u32, first: Option<u32>, second: Option<u32>)
    ensures
        trace::stores_of(scratch_script(addr, first, second), addr) == (if first is Some {
            seq![0x5A5Au32, 0]
        } else {
            Seq::<u32>::empty()
        }),
{
    broadcast use trace::group_of;

    if first is Some {
        let p1 = probe_script(addr, first).push(Step::Store { addr, value: SCRATCH_PATTERN });
        trace::of_append(p1, probe_script(addr, second), addr);
        assert(trace::stores_of(scratch_script(addr, first, second), addr) =~= seq![0x5A5Au32, 0]);
    }
}

/// A clock that is set is set for good where the register read back shows it.
pub proof fn law_sticky(reg_off: u32, bit: u32, readback: u32, w: u32)
    requires
        bit < 32,
    ensures
        sticky_script(reg_off, bit, readback).len() == 2,
        reg::word_step(sticky_script(reg_off, bit, readback)[0], reg::at(0x4002_1000, reg_off), w)
            == w | (1u32 << bit),
        sticky_script(reg_off, bit, readback)[1] == (Step::Load {
            addr: reg::at(0x4002_1000, reg_off),
            value: readback,
        }),
{
    bits::merge_fields(w, 1u32 << bit, 0, 0);
}

/// Vector `i` of a table lies four bytes for each vector behind its base; that of bus faults is where
/// the probe enters its handler.
pub proof fn law_vector_places()
    ensures
        4 * BUSFAULT_VECTOR_INDEX == BUSFAULT_VECTOR_OFFSET,
        BUSFAULT_VECTOR_INDEX < VECTOR_TABLE_LEN,
        RCU_APB2EN_OFFSET == RCU_APB2EN,
{
}

} // verus!
