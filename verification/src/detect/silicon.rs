//! What detection finds of a part, from how the part answers.
//!
//! A part is described by what it has, and a log of accesses by whether the part would answer so.
//! Whatever the probe does, on a log that a part would answer it finds that part.

use vstd::prelude::*;

use crate::bits;
use crate::detect::probe::{self, Detected, MeasuredCounts, ProbeTable};
use crate::detect::Family;
use crate::reg::{self, Access, Bus, Step};

verus! {

/// What a part has.
pub struct Part {
    /// GPIOA answers on AHB, as on the F1x0.
    pub ahb_gpio: bool,
    /// GPIOA answers on APB, as on the F10x.
    pub apb_gpio: bool,
    pub timer0: bool,
    pub timer7: bool,
    pub adc0: bool,
    pub adc1: bool,
    pub adc2: bool,
    /// The flash size in KiB.
    pub kib: u16,
}

/// Whether a clock is on: the bit was set by the last store to the enable register, which is zero
/// after reset.
pub open spec fn clocked(log: Seq<Access>, enables: u32, bit: u32) -> bool {
    reg::recall(log, enables) & (1u32 << bit) != 0
}

/// What the register of a block on APB2 holds: what was last stored to it while its clock, at
/// `bit`, was on.
pub open spec fn held(log: Seq<Access>, addr: u32, bit: u32) -> u32
    decreases log.len(),
{
    if log.len() == 0 {
        0
    } else {
        let before = log.drop_last();
        match log.last() {
            Access::Store { addr: a, value } => if a == addr && clocked(before, 0x4002_1018, bit) {
                value
            } else {
                held(before, addr, bit)
            },
            _ => held(before, addr, bit),
        }
    }
}

/// How a register of a block on APB2 answers: with the twelve bits it holds where the block is
/// there and its clock is on, else with a fault or with none of them set.
pub open spec fn block_answers(
    log: Seq<Access>,
    addr: u32,
    bit: u32,
    there: bool,
    value: Option<u32>,
) -> bool {
    if there && clocked(log, 0x4002_1018, bit) {
        value matches Some(v) && v & 0xFFF == held(log, addr, bit) & 0xFFF
    } else {
        value matches Some(v) ==> v & 0xFFF == 0
    }
}

/// How a part answers a guarded read of `addr` after `log`. The prescalers and thresholds that are
/// tried lie 0x28 into their blocks: timer 0 is clocked by bit 11 and timer 7 by bit 13, the ADCs
/// by bits 9, 10 and 15 of the APB2 enables; GPIOA is clocked by bit 17 of the AHB enables or bit 2
/// of the APB2 enables.
pub open spec fn answers(part: Part, log: Seq<Access>, addr: u32, value: Option<u32>) -> bool {
    &&& addr == 0x4001_2C28 ==> block_answers(log, addr, 11, part.timer0, value)
    &&& addr == 0x4001_3428 ==> block_answers(log, addr, 13, part.timer7, value)
    &&& addr == 0x4001_2428 ==> block_answers(log, addr, 9, part.adc0, value)
    &&& addr == 0x4001_2828 ==> block_answers(log, addr, 10, part.adc1, value)
    &&& addr == 0x4001_3C28 ==> block_answers(log, addr, 15, part.adc2, value)
    &&& addr == 0x4800_0000 && clocked(log, 0x4002_1014, 17) ==> (value is Some) == part.ahb_gpio
    &&& addr == 0x4001_0800 && clocked(log, 0x4002_1018, 2) ==> (value is Some) == part.apb_gpio
}

/// Every guarded read of a log, and every read of the flash size, is answered as a part does.
pub open spec fn behaves(part: Part, log: Seq<Access>) -> bool {
    forall|i: int|
        0 <= i < log.len() ==> match #[trigger] log[i] {
            Access::Probe { addr, value } => answers(part, log.take(i), addr, value),
            Access::Load { addr, value } => addr == 0x1FFF_F7E0 ==> value & 0xFFFF == part.kib,
            _ => true,
        }
}

/// One for each that is there.
pub open spec fn one(there: bool) -> nat {
    if there {
        1
    } else {
        0
    }
}

broadcast proof fn held_push(log: Seq<Access>, x: Access, addr: u32, bit: u32)
    ensures
        #[trigger] held(log.push(x), addr, bit) == (match x {
            Access::Store { addr: a, value } => if a == addr && clocked(log, 0x4002_1018, bit) {
                value
            } else {
                held(log, addr, bit)
            },
            _ => held(log, addr, bit),
        }),
{
    assert(log.push(x).drop_last() =~= log);
}

proof fn prefix_behaves(part: Part, short: Seq<Access>, long: Seq<Access>)
    requires
        behaves(part, long),
        short.len() <= long.len(),
        long.take(short.len() as int) == short,
    ensures
        behaves(part, short),
{
    assert forall|i: int| 0 <= i < short.len() implies match #[trigger] short[i] {
        Access::Probe { addr, value } => answers(part, short.take(i), addr, value),
        Access::Load { addr, value } => addr == 0x1FFF_F7E0 ==> value & 0xFFFF == part.kib,
        _ => true,
    } by {
        assert(short[i] == long[i]);
        assert(short.take(i) =~= long.take(i));
    }
}

/// A guarded read between fences: what it leaves in the log, and that the part answered it.
proof fn probe_answered(part: Part, l0: Seq<Access>, l1: Seq<Access>, addr: u32, value: Option<u32>)
    requires
        reg::performs(l0, l1, probe::probe_script(addr, value)),
        behaves(part, l1),
    ensures
        l1 == l0.push(Access::Fence).push(Access::Probe { addr, value }).push(Access::Fence),
        answers(part, l0.push(Access::Fence), addr, value),
{
    let s0 = Seq::<Step>::empty();
    let s1 = s0.push(Step::Fence);
    let s2 = s1.push(Step::Probe { addr, value });
    let m2 = reg::last_step(l0, l1, s2, Step::Fence);
    let m1 = reg::last_step(l0, m2, s1, Step::Probe { addr, value });
    let m0 = reg::last_step(l0, m1, s0, Step::Fence);
    assert(m0 == l0);
    let i = (l0.len() + 1) as int;
    assert(l1[i] == (Access::Probe { addr, value }));
    assert(l1.take(i) =~= l0.push(Access::Fence));
}

/// Trying a block whose clock is on tells whether it is there.
proof fn try_tells(
    part: Part,
    l0: Seq<Access>,
    l1: Seq<Access>,
    addr: u32,
    bit: u32,
    there: bool,
    first: Option<u32>,
    second: Option<u32>,
)
    requires
        reg::performs(l0, l1, probe::scratch_script(addr, first, second)),
        behaves(part, l1),
        bit < 32,
        clocked(l0, 0x4002_1018, bit),
        addr != 0x4002_1018,
        forall|log: Seq<Access>, value: Option<u32>| #[trigger]
            answers(part, log, addr, value) ==> block_answers(log, addr, bit, there, value),
    ensures
        probe::kept(first, second) == there,
{
    broadcast use {reg::recall_push, held_push};

    bits::masks();
    if first is None {
        probe_answered(part, l0, l1, addr, first);
    } else {
        let p1 = probe::probe_script(addr, first);
        let put = Step::Store { addr, value: probe::SCRATCH_PATTERN };
        let p2 = probe::probe_script(addr, second);
        let clear = Step::Store { addr, value: probe::SCRATCH_RESET };
        let m3 = reg::last_step(l0, l1, p1.push(put) + p2, clear);
        reg::takes_longer(m3, l1, clear);
        prefix_behaves(part, m3, l1);
        let m2 = reg::cut(l0, m3, p1.push(put), p2);
        reg::performs_longer(m2, m3, p2);
        prefix_behaves(part, m2, m3);
        let m1 = reg::last_step(l0, m2, p1, put);
        reg::takes_longer(m1, m2, put);
        prefix_behaves(part, m1, m2);
        probe_answered(part, l0, m1, addr, first);
        probe_answered(part, m2, m3, addr, second);
        assert(clocked(m2.push(Access::Fence), 0x4002_1018, bit));
    }
}

/// Clocking and trying the place `n` tells whether the block there is.
proof fn place_tells(
    part: Part,
    l0: Seq<Access>,
    l1: Seq<Access>,
    tried: Seq<(Option<u32>, Option<u32>)>,
    n: int,
    there: bool,
) -> (mid: Seq<Access>)
    requires
        0 <= n < 5,
        reg::performs(l0, l1, probe::tries_script(tried, (n + 1) as nat)),
        behaves(part, l1),
        there == (if n == 0 {
            part.timer0
        } else if n == 1 {
            part.timer7
        } else if n == 2 {
            part.adc0
        } else if n == 3 {
            part.adc1
        } else {
            part.adc2
        }),
    ensures
        reg::performs(l0, mid, probe::tries_script(tried, n as nat)),
        behaves(part, mid),
        probe::kept(tried[n].0, tried[n].1) == there,
{
    broadcast use {reg::recall_push, held_push};

    let (base, bit) = probe::places()[n];
    let addr = reg::at(base, probe::SCRATCH_OFFSET);
    let before = probe::tries_script(tried, n as nat);
    let on = probe::clock_step(probe::RCU_APB2EN, bit);
    let attempt = probe::scratch_script(addr, tried[n].0, tried[n].1);
    let m1 = reg::cut(l0, l1, before.push(on), attempt);
    let m0 = reg::last_step(l0, m1, before, on);
    reg::performs_longer(m1, l1, attempt);
    prefix_behaves(part, m1, l1);
    reg::takes_longer(m0, m1, on);
    prefix_behaves(part, m0, m1);
    let apb2en = reg::at(probe::RCU_BASE, probe::RCU_APB2EN);
    let mask = 1u32 << bit;
    let v = choose|v: u32| #[trigger] reg::rewrites(m0, m1, apb2en, mask, mask, v);
    bits::one_bit(v, bit);
    assert(reg::recall(m1, apb2en) == reg::merge(v, mask, mask));
    assert(clocked(m1, 0x4002_1018, bit));
    try_tells(part, m1, l1, addr, bit, there, tried[n].0, tried[n].1);
    m0
}

/// The timers and ADCs counted are those that are there, each tried while its own clock is on.
pub proof fn law_counts_are_what_is_there<B: Bus>(
    b0: B,
    b1: B,
    part: Part,
    counts: MeasuredCounts,
)
    requires
        probe::counted(b0, b1, counts),
        behaves(part, b1.log()),
    ensures
        counts.adv_timers == one(part.timer0) + one(part.timer7),
        counts.adc_count == one(part.adc0) + one(part.adc1) + one(part.adc2),
{
    let (saved, tried) = choose|saved: u32, tried: Seq<(Option<u32>, Option<u32>)>|
        {
            &&& reg::ran(b0, b1, #[trigger] probe::count_script(saved, tried))
            &&& counts.adv_timers == probe::tally(tried, 0, 2)
            &&& counts.adc_count == probe::tally(tried, 2, 5)
        };
    let apb2en = reg::at(probe::RCU_BASE, probe::RCU_APB2EN);
    let look = seq![Step::Load { addr: apb2en, value: saved }];
    let tries = probe::tries_script(tried, 5);
    let restore = Step::Store { addr: apb2en, value: saved };
    let l6 = reg::last_step(b0.log(), b1.log(), look + tries, restore);
    reg::takes_longer(l6, b1.log(), restore);
    prefix_behaves(part, l6, b1.log());
    let l0 = reg::cut(b0.log(), l6, look, tries);
    let l4 = place_tells(part, l0, l6, tried, 4, part.adc2);
    let l3 = place_tells(part, l0, l4, tried, 3, part.adc1);
    let l2 = place_tells(part, l0, l3, tried, 2, part.adc0);
    let l1 = place_tells(part, l0, l2, tried, 1, part.timer7);
    let _ = place_tells(part, l0, l1, tried, 0, part.timer0);
    reveal_with_fuel(probe::tally, 4);
}

/// The family of a part, by where its GPIOA answers.
pub open spec fn family(part: Part) -> Option<Family> {
    if part.ahb_gpio {
        Some(Family::F1x0)
    } else if part.apb_gpio {
        Some(Family::F10x)
    } else {
        None
    }
}

proof fn candidate_tells(
    part: Part,
    l0: Seq<Access>,
    l1: Seq<Access>,
    offset: u32,
    bit: u32,
    base: u32,
    value: Option<u32>,
)
    requires
        bit < 32,
        reg::performs(l0, l1, probe::candidate_script(offset, bit, base, value)),
        behaves(part, l1),
    ensures
        exists|log: Seq<Access>|
            {
                &&& #[trigger] answers(part, log, base, value)
                &&& clocked(log, reg::at(probe::RCU_BASE, offset), bit)
            },
{
    broadcast use reg::recall_push;

    let on = probe::clock_step(offset, bit);
    let read = probe::probe_script(base, value);
    let m = reg::cut(l0, l1, seq![on], read);
    assert(seq![on] =~= Seq::<Step>::empty().push(on));
    let z = reg::last_step(l0, m, Seq::<Step>::empty(), on);
    let enables = reg::at(probe::RCU_BASE, offset);
    let mask = 1u32 << bit;
    let v = choose|v: u32| #[trigger] reg::rewrites(z, m, enables, mask, mask, v);
    bits::one_bit(v, bit);
    probe_answered(part, m, l1, base, value);
    assert(clocked(m.push(Access::Fence), enables, bit));
}

/// The family told is that of the part, looked for with the port's own clock on.
pub proof fn law_family_is_what_answers<B: Bus>(b0: B, b1: B, part: Part, found: Option<Family>)
    requires
        probe::told(b0, b1, found),
        behaves(part, b1.log()),
    ensures
        found == family(part),
{
    let (f1x0, f10x) = choose|f1x0: Option<u32>, f10x: Option<u32>|
        {
            &&& reg::ran(b0, b1, #[trigger] probe::family_script(f1x0, f10x))
            &&& found == probe::family_of(f1x0, f10x)
        };
    let first = probe::candidate_script(
        probe::RCU_AHBEN,
        probe::F1X0_PAEN_BIT,
        probe::F1X0_GPIOA_BASE,
        f1x0,
    );
    let second = probe::candidate_script(
        probe::RCU_APB2EN,
        probe::F10X_PAEN_BIT,
        probe::F10X_GPIOA_BASE,
        f10x,
    );
    let l1 = b1.log();
    if f1x0 is Some {
        candidate_tells(
            part,
            b0.log(),
            l1,
            probe::RCU_AHBEN,
            probe::F1X0_PAEN_BIT,
            probe::F1X0_GPIOA_BASE,
            f1x0,
        );
    } else {
        let m = reg::cut(b0.log(), l1, first, second);
        reg::performs_longer(m, l1, second);
        prefix_behaves(part, m, l1);
        candidate_tells(
            part,
            b0.log(),
            m,
            probe::RCU_AHBEN,
            probe::F1X0_PAEN_BIT,
            probe::F1X0_GPIOA_BASE,
            f1x0,
        );
        candidate_tells(
            part,
            m,
            l1,
            probe::RCU_APB2EN,
            probe::F10X_PAEN_BIT,
            probe::F10X_GPIOA_BASE,
            f10x,
        );
    }
}

proof fn earlier_behaves<B: Bus>(part: Part, b0: B, b1: B)
    requires
        reg::steady(b0, b1),
        behaves(part, b1.log()),
    ensures
        behaves(part, b0.log()),
{
    prefix_behaves(part, b0.log(), b1.log());
}

proof fn recognised_tells<B: Bus>(b0: B, b1: B, table: ProbeTable, part: Part, found: Option<Family>)
    requires
        probe::recognised(b0, b1, table, found),
        behaves(part, b1.log()),
    ensures
        found == family(part),
{
    let (m1, m2, m3, m4, active, was) = choose|
        m1: B,
        m2: B,
        m3: B,
        m4: B,
        active: u32,
        was: bool,
    |
        {
            &&& #[trigger] probe::installed(b0, m1, table, active)
            &&& #[trigger] probe::armed(m1, m2, true, was)
            &&& #[trigger] probe::told(m2, m3, found)
            &&& #[trigger] probe::disarmed(m3, m4, was)
            &&& reg::ran(m4, b1, probe::vtor_script(active))
        };
    earlier_behaves(part, m4, b1);
    if !was {
        earlier_behaves(part, m3, m4);
    }
    law_family_is_what_answers(m2, m3, part, found);
}

proof fn measured_tells<B: Bus>(b0: B, b1: B, table: ProbeTable, part: Part, counts: MeasuredCounts)
    requires
        probe::measured(b0, b1, table, counts),
        behaves(part, b1.log()),
    ensures
        reg::steady(b0, b1),
        counts.adv_timers == one(part.timer0) + one(part.timer7),
        counts.adc_count == one(part.adc0) + one(part.adc1) + one(part.adc2),
{
    let (m1, m2, m3, m4, active, was) = choose|
        m1: B,
        m2: B,
        m3: B,
        m4: B,
        active: u32,
        was: bool,
    |
        {
            &&& #[trigger] probe::installed(b0, m1, table, active)
            &&& #[trigger] probe::armed(m1, m2, true, was)
            &&& #[trigger] probe::counted(m2, m3, counts)
            &&& #[trigger] probe::disarmed(m3, m4, was)
            &&& reg::ran(m4, b1, probe::vtor_script(active))
        };
    earlier_behaves(part, m4, b1);
    if !was {
        earlier_behaves(part, m3, m4);
    } else {
        reg::steady_refl(m3);
    }
    law_counts_are_what_is_there(m2, m3, part, counts);
    reg::steady_trans(b0, m1, m2);
    reg::steady_trans(b0, m2, m3);
    reg::steady_trans(b0, m3, m4);
    reg::steady_trans(b0, m4, b1);
}

/// Detection finds the part: nothing where no GPIOA answers; else the family whose GPIOA answers,
/// as many timers and ADCs as there are, and the flash size.
pub proof fn law_detection_finds_the_part<B: Bus>(
    b0: B,
    b1: B,
    table: ProbeTable,
    part: Part,
    found: Option<Detected>,
)
    requires
        probe::observed(b0, b1, table, found),
        behaves(part, b1.log()),
    ensures
        match family(part) {
            None => found is None,
            Some(f) => {
                &&& found matches Some(d)
                &&& d.family == f
                &&& d.adv_timers == one(part.timer0) + one(part.timer7)
                &&& d.adc_count == one(part.adc0) + one(part.adc1) + one(part.adc2)
                &&& d.flash_kib == part.kib
            },
        },
{
    match found {
        None => {
            recognised_tells(b0, b1, table, part, None);
        },
        Some(d) => {
            let counts = MeasuredCounts { adv_timers: d.adv_timers, adc_count: d.adc_count };
            let (m1, m2) = choose|m1: B, m2: B|
                {
                    &&& #[trigger] probe::recognised(b0, m1, table, Some(d.family))
                    &&& #[trigger] probe::measured(m1, m2, table, counts)
                    &&& reg::did(m2, b1, probe::density_step(reg::last_load(b1.log())))
                    &&& d.flash_kib == reg::last_load(b1.log()) & 0xFFFF
                };
            earlier_behaves(part, m2, b1);
            measured_tells(m1, m2, table, part, counts);
            earlier_behaves(part, m1, m2);
            recognised_tells(b0, m1, table, part, Some(d.family));
            let n = b1.log().len() - 1;
            assert(b1.log()[n] == (Access::Load {
                addr: 0x1FFF_F7E0,
                value: reg::last_load(b1.log()),
            }));
        },
    }
}

} // verus!
