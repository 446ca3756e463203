//! What guards the reads of the probe: at each of them a fault would be caught.

use vstd::prelude::*;

use crate::bits;
use crate::detect::laws;
use crate::detect::probe::{self, Detected, MeasuredCounts, ProbeTable};
use crate::detect::Family;
use crate::reg::{self, Access, Bus, Step};

verus! {

/// A fault would be caught after `log`: bus faults go to their handler, the core takes its vectors
/// from the probe's table, and there the vector of bus faults is the probe's handler.
pub open spec fn guarded(log: Seq<Access>, table: ProbeTable) -> bool {
    &&& reg::recall(log, 0xE000_ED24) & 0x0002_0000 != 0
    &&& reg::recall(log, 0xE000_ED08) == probe::aligned(table.addr)
    &&& reg::recall(log, reg::at(table.addr, 0x14)) == table.entry
}

/// Every guarded read of `after` that is not in `before` is made where a fault would be caught.
pub open spec fn all_guarded(before: Seq<Access>, after: Seq<Access>, table: ProbeTable) -> bool {
    forall|i: int|
        before.len() <= i < after.len() && #[trigger] after[i] is Probe ==> guarded(
            after.take(i),
            table,
        )
}

/// A step that stores nothing at `x`.
pub open spec fn spares(step: Step, x: u32) -> bool {
    match step {
        Step::Store { addr, .. } => addr != x,
        Step::Modify { addr, .. } => addr != x,
        _ => true,
    }
}

/// A script that stores nothing at `x`.
pub open spec fn all_spare(script: Seq<Step>, x: u32) -> bool {
    forall|i: int| 0 <= i < script.len() ==> spares(#[trigger] script[i], x)
}

/// A script without a guarded read.
pub open spec fn no_probe(script: Seq<Step>) -> bool {
    forall|i: int| 0 <= i < script.len() ==> !(#[trigger] script[i] is Probe)
}

proof fn takes_spares(l0: Seq<Access>, l1: Seq<Access>, step: Step, x: u32, n: int)
    requires
        reg::takes(l0, l1, step),
        spares(step, x),
        l0.len() <= n <= l1.len(),
    ensures
        reg::recall(l1.take(n), x) == reg::recall(l0, x),
    decreases n,
{
    broadcast use reg::recall_push;

    reg::takes_longer(l0, l1, step);
    if n == l0.len() {
        assert(l1.take(n) =~= l0);
    } else {
        takes_spares(l0, l1, step, x, n - 1);
        assert(l1.take(n) =~= l1.take(n - 1).push(l1[n - 1]));
        match step {
            Step::Await { addr, want, abort, limit } => {
                reg::law_met_wait(l0, l1, addr, want, abort, limit, n - 1);
            },
            Step::Settle { addr, want, limit } => {
                if n - 1 < l1.len() - 1 {
                    assert(l1.drop_last()[n - 1] == l1[n - 1]);
                }
            },
            Step::Modify { addr, mask, bits: new } => {
                reg::law_modify(l0, l1, addr, mask, new);
                assert(n - 1 == l0.len() || n - 1 == l0.len() + 1);
            },
            _ => {
                assert(n - 1 == l0.len());
            },
        }
    }
}

proof fn performs_spares(l0: Seq<Access>, l1: Seq<Access>, script: Seq<Step>, x: u32, n: int)
    requires
        reg::performs(l0, l1, script),
        all_spare(script, x),
        l0.len() <= n <= l1.len(),
    ensures
        reg::recall(l1.take(n), x) == reg::recall(l0, x),
    decreases script.len(),
{
    if script.len() == 0 {
        assert(l1.take(n) =~= l0);
    } else {
        let rest = script.drop_last();
        let step = script.last();
        assert(script =~= rest.push(step));
        let mid = reg::last_step(l0, l1, rest, step);
        reg::performs_longer(l0, mid, rest);
        reg::takes_longer(mid, l1, step);
        assert(all_spare(rest, x)) by {
            assert forall|i: int| 0 <= i < rest.len() implies spares(#[trigger] rest[i], x) by {
                assert(rest[i] == script[i]);
            }
        }
        assert(spares(script[script.len() - 1], x));
        if n <= mid.len() {
            performs_spares(l0, mid, rest, x, n);
            assert(l1.take(n) =~= mid.take(n));
        } else {
            performs_spares(l0, mid, rest, x, mid.len() as int);
            assert(mid.take(mid.len() as int) =~= mid);
            takes_spares(mid, l1, step, x, n);
        }
    }
}

proof fn takes_no_probe(l0: Seq<Access>, l1: Seq<Access>, step: Step, i: int)
    requires
        reg::takes(l0, l1, step),
        !(step is Probe),
        l0.len() <= i < l1.len(),
    ensures
        !(l1[i] is Probe),
{
    match step {
        Step::Await { addr, want, abort, limit } => {
            reg::law_met_wait(l0, l1, addr, want, abort, limit, i);
        },
        Step::Settle { addr, want, limit } => {
            if i < l1.len() - 1 {
                assert(l1.drop_last()[i] == l1[i]);
            }
        },
        Step::Modify { addr, mask, bits: new } => {
            reg::law_modify(l0, l1, addr, mask, new);
            assert(i == l0.len() || i == l0.len() + 1);
        },
        _ => {
            assert(i == l0.len());
        },
    }
}

proof fn performs_no_probe(l0: Seq<Access>, l1: Seq<Access>, script: Seq<Step>, table: ProbeTable)
    requires
        reg::performs(l0, l1, script),
        no_probe(script),
    ensures
        all_guarded(l0, l1, table),
    decreases script.len(),
{
    if script.len() > 0 {
        let rest = script.drop_last();
        let step = script.last();
        assert(script =~= rest.push(step));
        let mid = reg::last_step(l0, l1, rest, step);
        reg::performs_longer(l0, mid, rest);
        reg::takes_longer(mid, l1, step);
        assert forall|i: int| 0 <= i < rest.len() implies !(#[trigger] rest[i] is Probe) by {
            assert(rest[i] == script[i]);
        }
        assert(!(script[script.len() - 1] is Probe));
        performs_no_probe(l0, mid, rest, table);
        assert forall|i: int| l0.len() <= i < l1.len() && #[trigger] l1[i] is Probe implies guarded(
            l1.take(i),
            table,
        ) by {
            if i < mid.len() {
                assert(mid[i] == l1[i]);
                assert(mid.take(i) =~= l1.take(i));
            } else {
                takes_no_probe(mid, l1, step, i);
            }
        }
    }
}

proof fn guards_join(l0: Seq<Access>, l1: Seq<Access>, l2: Seq<Access>, table: ProbeTable)
    requires
        all_guarded(l0, l1, table),
        all_guarded(l1, l2, table),
        l1.len() <= l2.len(),
        l2.take(l1.len() as int) == l1,
    ensures
        all_guarded(l0, l2, table),
{
    assert forall|i: int| l0.len() <= i < l2.len() && #[trigger] l2[i] is Probe implies guarded(
        l2.take(i),
        table,
    ) by {
        if i < l1.len() {
            assert(l1[i] == l2[i]);
            assert(l1.take(i) =~= l2.take(i));
        }
    }
}

/// A script that touches nothing of the guard keeps it up.
proof fn guard_stands(l0: Seq<Access>, l1: Seq<Access>, script: Seq<Step>, table: ProbeTable)
    requires
        reg::performs(l0, l1, script),
        guarded(l0, table),
        all_spare(script, 0xE000_ED24),
        all_spare(script, 0xE000_ED08),
        all_spare(script, reg::at(table.addr, 0x14)),
    ensures
        all_guarded(l0, l1, table),
{
    assert forall|i: int| l0.len() <= i < l1.len() && #[trigger] l1[i] is Probe implies guarded(
        l1.take(i),
        table,
    ) by {
        performs_spares(l0, l1, script, 0xE000_ED24, i);
        performs_spares(l0, l1, script, 0xE000_ED08, i);
        performs_spares(l0, l1, script, reg::at(table.addr, 0x14), i);
    }
}

proof fn install_guards<B: Bus>(b0: B, b1: B, table: ProbeTable, active: u32)
    requires
        probe::installed(b0, b1, table, active),
        laws::in_ram(table),
    ensures
        all_guarded(b0.log(), b1.log(), table),
        reg::recall(b1.log(), 0xE000_ED08) == probe::aligned(table.addr),
        reg::recall(b1.log(), reg::at(table.addr, 0x14)) == table.entry,
{
    broadcast use reg::recall_push;

    let words = choose|words: Seq<u32>|
        reg::ran(b0, b1, #[trigger] probe::install_script(table, active, words));
    let script = probe::install_script(table, active, words);
    let look = seq![Step::Load { addr: 0xE000_ED08, value: active }];
    let copy = probe::copy_script(active, table.addr, words, 16);
    let enter = Step::Store { addr: reg::at(table.addr, 0x14), value: table.entry };
    let point = Step::Store { addr: 0xE000_ED08, value: probe::aligned(table.addr) };
    copy_has_no_probe(active, table.addr, words, 16);
    assert(script =~= (look + copy).push(enter).push(point).push(Step::Fence));
    assert(no_probe(script)) by {
        assert forall|i: int| 0 <= i < script.len() implies !(#[trigger] script[i] is Probe) by {
            if 1 <= i < 1 + copy.len() {
                assert(script[i] == copy[i - 1]);
            }
        }
    }
    performs_no_probe(b0.log(), b1.log(), script, table);
    let m3 = reg::last_step(b0.log(), b1.log(), (look + copy).push(enter).push(point), Step::Fence);
    let m2 = reg::last_step(b0.log(), m3, (look + copy).push(enter), point);
    let m1 = reg::last_step(b0.log(), m2, look + copy, enter);
}

proof fn copy_has_no_probe(src: u32, dst: u32, words: Seq<u32>, n: nat)
    ensures
        no_probe(probe::copy_script(src, dst, words, n)),
    decreases n,
{
    if n > 0 {
        copy_has_no_probe(src, dst, words, (n - 1) as nat);
    }
}

proof fn arm_guards<B: Bus>(b0: B, b1: B, table: ProbeTable, was: bool)
    requires
        probe::armed(b0, b1, true, was),
        laws::in_ram(table),
        reg::recall(b0.log(), 0xE000_ED08) == probe::aligned(table.addr),
        reg::recall(b0.log(), reg::at(table.addr, 0x14)) == table.entry,
    ensures
        all_guarded(b0.log(), b1.log(), table),
        guarded(b1.log(), table),
{
    broadcast use reg::recall_push;

    let shcsr = choose|shcsr: u32|
        {
            &&& reg::ran(b0, b1, #[trigger] probe::arm_script(shcsr, true))
            &&& was == (shcsr & probe::SHCSR_BUSFAULTENA != 0)
        };
    let load = Step::Load { addr: 0xE000_ED24, value: shcsr };
    let set = Step::Store { addr: 0xE000_ED24, value: shcsr | 0x0002_0000 };
    let none = Seq::<Step>::empty();
    performs_no_probe(b0.log(), b1.log(), none.push(load).push(set), table);
    let m1 = reg::last_step(b0.log(), b1.log(), none.push(load), set);
    let m0 = reg::last_step(b0.log(), m1, none, load);
    bits::merge_fields(shcsr, 0x0002_0000, 0x0002_0000, 0);
    bits::no_bits(0x0002_0000);
}

proof fn disarm_guards<B: Bus>(b0: B, b1: B, table: ProbeTable, was: bool, active: u32, b2: B)
    requires
        probe::disarmed(b0, b1, was),
        reg::ran(b1, b2, probe::vtor_script(active)),
    ensures
        reg::steady(b0, b2),
        all_guarded(b0.log(), b2.log(), table),
{
    performs_no_probe(b1.log(), b2.log(), probe::vtor_script(active), table);
    if was {
    } else {
        let now = choose|now: bool| #[trigger] probe::armed(b0, b1, false, now);
        let shcsr = choose|shcsr: u32|
            {
                &&& reg::ran(b0, b1, #[trigger] probe::arm_script(shcsr, false))
                &&& now == (shcsr & probe::SHCSR_BUSFAULTENA != 0)
            };
        performs_no_probe(b0.log(), b1.log(), probe::arm_script(shcsr, false), table);
        guards_join(b0.log(), b1.log(), b2.log(), table);
        reg::steady_trans(b0, b1, b2);
    }
}

/// Trying places touches nothing of the guard.
proof fn tries_spare(tried: Seq<(Option<u32>, Option<u32>)>, n: nat, x: u32)
    requires
        n <= 5,
        x < 0x4000_0000 || 0xE000_0000 <= x,
    ensures
        all_spare(probe::tries_script(tried, n), x),
    decreases n,
{
    if n > 0 {
        tries_spare(tried, (n - 1) as nat, x);
        assert(n == 1 || n == 2 || n == 3 || n == 4 || n == 5);
        let (base, bit) = probe::places()[n - 1];
        let attempt = probe::scratch_script(
            reg::at(base, probe::SCRATCH_OFFSET),
            tried[n - 1].0,
            tried[n - 1].1,
        );
        assert(all_spare(attempt, x));
    }
}

proof fn counting_is_guarded<B: Bus>(b0: B, b1: B, table: ProbeTable, counts: MeasuredCounts)
    requires
        probe::counted(b0, b1, counts),
        guarded(b0.log(), table),
        laws::in_ram(table),
    ensures
        all_guarded(b0.log(), b1.log(), table),
{
    let (saved, tried) = choose|saved: u32, tried: Seq<(Option<u32>, Option<u32>)>|
        {
            &&& reg::ran(b0, b1, #[trigger] probe::count_script(saved, tried))
            &&& counts.adv_timers == probe::tally(tried, 0, 2)
            &&& counts.adc_count == probe::tally(tried, 2, 5)
        };
    let script = probe::count_script(saved, tried);
    tries_spare(tried, 5, 0xE000_ED24);
    tries_spare(tried, 5, 0xE000_ED08);
    tries_spare(tried, 5, reg::at(table.addr, 0x14));
    assert(all_spare(script, 0xE000_ED24));
    assert(all_spare(script, 0xE000_ED08));
    assert(all_spare(script, reg::at(table.addr, 0x14)));
    guard_stands(b0.log(), b1.log(), script, table);
}

proof fn telling_is_guarded<B: Bus>(b0: B, b1: B, table: ProbeTable, family: Option<Family>)
    requires
        probe::told(b0, b1, family),
        guarded(b0.log(), table),
        laws::in_ram(table),
    ensures
        all_guarded(b0.log(), b1.log(), table),
{
    let (f1x0, f10x) = choose|f1x0: Option<u32>, f10x: Option<u32>|
        {
            &&& reg::ran(b0, b1, #[trigger] probe::family_script(f1x0, f10x))
            &&& family == probe::family_of(f1x0, f10x)
        };
    let script = probe::family_script(f1x0, f10x);
    assert(all_spare(script, 0xE000_ED24));
    assert(all_spare(script, 0xE000_ED08));
    assert(all_spare(script, reg::at(table.addr, 0x14)));
    guard_stands(b0.log(), b1.log(), script, table);
}

/// Every guarded read of counting is made where a fault would be caught.
pub proof fn law_counting_is_guarded<B: Bus>(
    b0: B,
    b1: B,
    table: ProbeTable,
    counts: MeasuredCounts,
)
    requires
        probe::measured(b0, b1, table, counts),
        laws::in_ram(table),
    ensures
        reg::steady(b0, b1),
        all_guarded(b0.log(), b1.log(), table),
{
    let (m1, m2, m3, m4, active, was) = choose|
        m1: B,
        m2: B,
        m3: B,
        m4: B,
        active: u32,
        was: bool,
    |
        {
            &&& #[trigger] probe::installed(b0, m1, table, active)
            &&& #[trigger] probe::armed(m1, m2, true, was)
            &&& #[trigger] probe::counted(m2, m3, counts)
            &&& #[trigger] probe::disarmed(m3, m4, was)
            &&& reg::ran(m4, b1, probe::vtor_script(active))
        };
    install_guards(b0, m1, table, active);
    arm_guards(m1, m2, table, was);
    counting_is_guarded(m2, m3, table, counts);
    disarm_guards(m3, m4, table, was, active, b1);
    guards_join(b0.log(), m1.log(), m2.log(), table);
    guards_join(b0.log(), m2.log(), m3.log(), table);
    guards_join(b0.log(), m3.log(), b1.log(), table);
    reg::steady_trans(b0, m1, m2);
    reg::steady_trans(b0, m2, m3);
    reg::steady_trans(b0, m3, b1);
}

/// Every guarded read of telling the family is made where a fault would be caught.
pub proof fn law_telling_is_guarded<B: Bus>(
    b0: B,
    b1: B,
    table: ProbeTable,
    family: Option<Family>,
)
    requires
        probe::recognised(b0, b1, table, family),
        laws::in_ram(table),
    ensures
        reg::steady(b0, b1),
        all_guarded(b0.log(), b1.log(), table),
{
    let (m1, m2, m3, m4, active, was) = choose|
        m1: B,
        m2: B,
        m3: B,
        m4: B,
        active: u32,
        was: bool,
    |
        {
            &&& #[trigger] probe::installed(b0, m1, table, active)
            &&& #[trigger] probe::armed(m1, m2, true, was)
            &&& #[trigger] probe::told(m2, m3, family)
            &&& #[trigger] probe::disarmed(m3, m4, was)
            &&& reg::ran(m4, b1, probe::vtor_script(active))
        };
    install_guards(b0, m1, table, active);
    arm_guards(m1, m2, table, was);
    telling_is_guarded(m2, m3, table, family);
    disarm_guards(m3, m4, table, was, active, b1);
    guards_join(b0.log(), m1.log(), m2.log(), table);
    guards_join(b0.log(), m2.log(), m3.log(), table);
    guards_join(b0.log(), m3.log(), b1.log(), table);
    reg::steady_trans(b0, m1, m2);
    reg::steady_trans(b0, m2, m3);
    reg::steady_trans(b0, m3, b1);
}

/// A whole detection makes no read that might fault where the fault would not be caught.
pub proof fn law_detection_is_guarded<B: Bus>(
    b0: B,
    b1: B,
    table: ProbeTable,
    found: Option<Detected>,
)
    requires
        probe::observed(b0, b1, table, found),
        laws::in_ram(table),
    ensures
        all_guarded(b0.log(), b1.log(), table),
{
    match found {
        None => {
            law_telling_is_guarded(b0, b1, table, None);
        },
        Some(d) => {
            let counts = MeasuredCounts { adv_timers: d.adv_timers, adc_count: d.adc_count };
            let (m1, m2) = choose|m1: B, m2: B|
                {
                    &&& #[trigger] probe::recognised(b0, m1, table, Some(d.family))
                    &&& #[trigger] probe::measured(m1, m2, table, counts)
                    &&& reg::did(m2, b1, probe::density_step(reg::last_load(b1.log())))
                    &&& d.flash_kib == reg::last_load(b1.log()) & 0xFFFF
                };
            law_telling_is_guarded(b0, m1, table, Some(d.family));
            law_counting_is_guarded(m1, m2, table, counts);
            guards_join(b0.log(), m1.log(), m2.log(), table);
            assert(all_guarded(m2.log(), b1.log(), table));
            guards_join(b0.log(), m2.log(), b1.log(), table);
        },
    }
}

/// The size of the flash is read once, last of all, and its lower half is what is found.
pub proof fn law_density_is_read<B: Bus>(b0: B, b1: B, table: ProbeTable, d: Detected)
    requires
        probe::observed(b0, b1, table, Some(d)),
    ensures
        b1.log().last() matches Access::Load { addr: 0x1FFF_F7E0, value } && d.flash_kib == value
            & 0xFFFF,
{
}

} // verus!
