//! What the probe leaves behind: nothing but what it means to.

use vstd::prelude::*;

use crate::bits;
use crate::detect::probe::{
    self, MeasuredCounts, ProbeTable, RCU_AHBEN, RCU_APB2EN, RCU_BASE,
    SCRATCH_OFFSET, SHCSR_ADDR, SHCSR_BUSFAULTENA, VECTOR_TABLE_LEN, VTOR_ADDR,
};
use crate::detect::Family;
use crate::reg::{self, Bus, Step};

verus! {

/// The table lies in RAM.
pub open spec fn in_ram(table: ProbeTable) -> bool {
    0x2000_0000 <= table.addr <= 0x3FFF_FF00
}

/// Whether `x` is a word of the table.
pub open spec fn of_table(table: ProbeTable, x: u32) -> bool {
    table.addr <= x < table.addr + 64
}

/// Whether `x` is the harmless register of one of the places looked at.
pub open spec fn is_scratch(x: u32) -> bool {
    exists|i: int| 0 <= i < 5 && x == reg::at((#[trigger] probe::places()[i]).0, SCRATCH_OFFSET)
}

proof fn scratch_is_nowhere_else(x: u32)
    requires
        is_scratch(x),
    ensures
        x != reg::at(RCU_BASE, RCU_APB2EN),
        x != VTOR_ADDR,
        x != SHCSR_ADDR,
        0x4001_0000 <= x < 0x4001_4000,
{
    let i = choose|i: int|
        0 <= i < 5 && x == reg::at((#[trigger] probe::places()[i]).0, SCRATCH_OFFSET);
    assert(i == 0 || i == 1 || i == 2 || i == 3 || i == 4);
}

proof fn copy_leaves(src: u32, dst: u32, words: Seq<u32>, n: nat, x: u32, w: u32)
    requires
        n <= VECTOR_TABLE_LEN,
        dst <= 0x3FFF_FF00,
        !(dst <= x < dst + 4 * VECTOR_TABLE_LEN),
    ensures
        reg::word_after(probe::copy_script(src, dst, words, n), x, w) == w,
    decreases n,
{
    broadcast use reg::group_after;

    if n > 0 {
        copy_leaves(src, dst, words, (n - 1) as nat, x, w);
    }
}

proof fn installed_leaves<B: Bus>(b0: B, b1: B, table: ProbeTable, active: u32, x: u32)
    requires
        b0.flat(),
        in_ram(table),
        probe::installed(b0, b1, table, active),
        !of_table(table, x),
    ensures
        b1.flat(),
        active == reg::recall(b0.log(), VTOR_ADDR),
        x != VTOR_ADDR ==> reg::recall(b1.log(), x) == reg::recall(b0.log(), x),
{
    broadcast use reg::group_after;

    let words = choose|words: Seq<u32>|
        reg::ran(b0, b1, #[trigger] probe::install_script(table, active, words));
    let script = probe::install_script(table, active, words);
    let look = seq![Step::Load { addr: VTOR_ADDR, value: active }];
    let filled = probe::table_script(table, active, words);
    let pointed = probe::vtor_script(probe::aligned(table.addr));
    reg::ran_loads(b0, b1, script, 0);
    assert(script[0] == look[0]);
    assert(script.take(0) =~= Seq::empty());
    let w = reg::recall(b0.log(), x);
    reg::ran_leaves(b0, b1, script, x);
    reg::word_after_append(look + filled, pointed, x, w);
    reg::word_after_append(look, filled, x, w);
    copy_leaves(active, table.addr, words, VECTOR_TABLE_LEN as nat, x, w);
}

proof fn armed_leaves<B: Bus>(b0: B, b1: B, enable: bool, was: bool, x: u32)
    requires
        b0.flat(),
        probe::armed(b0, b1, enable, was),
    ensures
        b1.flat(),
        was == (reg::recall(b0.log(), SHCSR_ADDR) & SHCSR_BUSFAULTENA != 0),
        reg::recall(b1.log(), x) == if x != SHCSR_ADDR {
            reg::recall(b0.log(), x)
        } else if enable {
            reg::recall(b0.log(), x) | SHCSR_BUSFAULTENA
        } else {
            reg::recall(b0.log(), x) & !SHCSR_BUSFAULTENA
        },
{
    broadcast use reg::group_after;

    let shcsr = choose|shcsr: u32|
        {
            &&& reg::ran(b0, b1, #[trigger] probe::arm_script(shcsr, enable))
            &&& was == (shcsr & SHCSR_BUSFAULTENA != 0)
        };
    let script = probe::arm_script(shcsr, enable);
    reg::ran_loads(b0, b1, script, 0);
    assert(script.take(0) =~= Seq::empty());
    reg::ran_leaves(b0, b1, script, x);
}

/// Arming and disarming the bus fault handler around something that leaves its enable alone
/// restores it.
proof fn rearming_restores<B: Bus>(m1: B, m2: B, m3: B, m4: B, was: bool, x: u32)
    requires
        m1.flat(),
        m3.flat(),
        probe::armed(m1, m2, true, was),
        reg::recall(m3.log(), SHCSR_ADDR) == reg::recall(m2.log(), SHCSR_ADDR),
        probe::disarmed(m3, m4, was),
    ensures
        m4.flat(),
        x != SHCSR_ADDR ==> reg::recall(m4.log(), x) == reg::recall(m3.log(), x),
        reg::recall(m4.log(), SHCSR_ADDR) == reg::recall(m1.log(), SHCSR_ADDR),
{
    armed_leaves(m1, m2, true, was, SHCSR_ADDR);
    let s = reg::recall(m1.log(), SHCSR_ADDR);
    bits::restored_bit(s);
    if !was {
        let now = choose|now: bool| #[trigger] probe::armed(m3, m4, false, now);
        armed_leaves(m3, m4, false, now, SHCSR_ADDR);
        armed_leaves(m3, m4, false, now, x);
    }
}

proof fn restored_leaves<B: Bus>(b0: B, b1: B, active: u32, x: u32)
    requires
        b0.flat(),
        reg::ran(b0, b1, probe::vtor_script(active)),
    ensures
        b1.flat(),
        reg::recall(b1.log(), x) == if x == VTOR_ADDR {
            active
        } else {
            reg::recall(b0.log(), x)
        },
{
    broadcast use reg::group_after;

    reg::ran_leaves(b0, b1, probe::vtor_script(active), x);
}

proof fn tries_leave(answers: Seq<(Option<u32>, Option<u32>)>, n: nat, x: u32, w: u32)
    requires
        n <= 5,
        x != reg::at(RCU_BASE, RCU_APB2EN),
    ensures
        ({
            let r = reg::word_after(probe::tries_script(answers, n), x, w);
            r == w || (is_scratch(x) && r == 0)
        }),
    decreases n,
{
    broadcast use reg::group_after;

    if n > 0 {
        tries_leave(answers, (n - 1) as nat, x, w);
        let (base, bit) = probe::places()[n - 1];
        let cell = reg::at(base, SCRATCH_OFFSET);
        let so_far = probe::tries_script(answers, (n - 1) as nat).push(
            probe::clock_step(RCU_APB2EN, bit),
        );
        let (first, second) = answers[n - 1];
        let attempt = probe::scratch_script(cell, first, second);
        let u = reg::word_after(so_far, x, w);
        reg::word_after_append(so_far, attempt, x, w);
        reg::word_after_append(
            probe::probe_script(cell, first).push(
                Step::Store { addr: cell, value: probe::SCRATCH_PATTERN },
            ),
            probe::probe_script(cell, second),
            x,
            u,
        );
    }
}

proof fn counted_leaves<B: Bus>(b0: B, b1: B, counts: MeasuredCounts, x: u32)
    requires
        b0.flat(),
        probe::counted(b0, b1, counts),
    ensures
        b1.flat(),
        reg::recall(b1.log(), x) == reg::recall(b0.log(), x) || (is_scratch(x) && reg::recall(
            b1.log(),
            x,
        ) == 0),
{
    broadcast use reg::group_after;

    let (saved, answers) = choose|saved: u32, answers: Seq<(Option<u32>, Option<u32>)>|
        {
            &&& reg::ran(b0, b1, #[trigger] probe::count_script(saved, answers))
            &&& counts.adv_timers == probe::tally(answers, 0, 2)
            &&& counts.adc_count == probe::tally(answers, 2, 5)
        };
    let script = probe::count_script(saved, answers);
    let apb2en = reg::at(RCU_BASE, RCU_APB2EN);
    let look = seq![Step::Load { addr: apb2en, value: saved }];
    let tries = probe::tries_script(answers, 5);
    reg::ran_loads(b0, b1, script, 0);
    assert(script[0] == look[0]);
    assert(script.take(0) =~= Seq::empty());
    let w = reg::recall(b0.log(), x);
    reg::ran_leaves(b0, b1, script, x);
    reg::word_after_append(look, tries, x, w);
    if x != apb2en {
        tries_leave(answers, 5, x, w);
    }
}

/// Counting the timers and ADCs leaves no trace: afterwards every register is as it was, among
/// them the vector table offset, the bus fault enable and the clock enables. The exceptions are
/// the table itself and the harmless registers, which hold zero or what they held.
pub proof fn law_counting_leaves_no_trace<B: Bus>(
    b0: B,
    b1: B,
    table: ProbeTable,
    counts: MeasuredCounts,
    x: u32,
)
    requires
        b0.flat(),
        in_ram(table),
        probe::measured(b0, b1, table, counts),
        !of_table(table, x),
    ensures
        b1.flat(),
        reg::recall(b1.log(), x) == reg::recall(b0.log(), x) || (is_scratch(x) && reg::recall(
            b1.log(),
            x,
        ) == 0),
{
    let (m1, m2, m3, m4, active, was) = choose|
        m1: B,
        m2: B,
        m3: B,
        m4: B,
        active: u32,
        was: bool,
    |
        {
            &&& #[trigger] probe::installed(b0, m1, table, active)
            &&& #[trigger] probe::armed(m1, m2, true, was)
            &&& #[trigger] probe::counted(m2, m3, counts)
            &&& #[trigger] probe::disarmed(m3, m4, was)
            &&& reg::ran(m4, b1, probe::vtor_script(active))
        };
    installed_leaves(b0, m1, table, active, x);
    installed_leaves(b0, m1, table, active, SHCSR_ADDR);
    armed_leaves(m1, m2, true, was, x);
    counted_leaves(m2, m3, counts, x);
    counted_leaves(m2, m3, counts, SHCSR_ADDR);
    if is_scratch(SHCSR_ADDR) {
        scratch_is_nowhere_else(SHCSR_ADDR);
    }
    if is_scratch(x) {
        scratch_is_nowhere_else(x);
    }
    rearming_restores(m1, m2, m3, m4, was, x);
    restored_leaves(m4, b1, active, x);
}

proof fn told_leaves<B: Bus>(b0: B, b1: B, family: Option<Family>, x: u32)
    requires
        b0.flat(),
        probe::told(b0, b1, family),
        x != reg::at(RCU_BASE, RCU_AHBEN),
        x != reg::at(RCU_BASE, RCU_APB2EN),
    ensures
        b1.flat(),
        reg::recall(b1.log(), x) == reg::recall(b0.log(), x),
{
    broadcast use reg::group_after;

    let (f1x0, f10x) = choose|f1x0: Option<u32>, f10x: Option<u32>|
        {
            &&& reg::ran(b0, b1, #[trigger] probe::family_script(f1x0, f10x))
            &&& family == probe::family_of(f1x0, f10x)
        };
    let w = reg::recall(b0.log(), x);
    let one = probe::candidate_script(
        RCU_AHBEN,
        probe::F1X0_PAEN_BIT,
        probe::F1X0_GPIOA_BASE,
        f1x0,
    );
    let two = probe::candidate_script(
        RCU_APB2EN,
        probe::F10X_PAEN_BIT,
        probe::F10X_GPIOA_BASE,
        f10x,
    );
    reg::ran_leaves(b0, b1, probe::family_script(f1x0, f10x), x);
    reg::word_after_append(one, two, x, w);
    reg::word_after_append(
        seq![probe::clock_step(RCU_AHBEN, probe::F1X0_PAEN_BIT)],
        probe::probe_script(probe::F1X0_GPIOA_BASE, f1x0),
        x,
        w,
    );
    reg::word_after_append(
        seq![probe::clock_step(RCU_APB2EN, probe::F10X_PAEN_BIT)],
        probe::probe_script(probe::F10X_GPIOA_BASE, f10x),
        x,
        w,
    );
}

/// Telling the family changes only the clock enables of the GPIO ports looked for: the vector
/// table offset, the bus fault enable and every other register are as they were.
pub proof fn law_telling_the_family_leaves_no_trace<B: Bus>(
    b0: B,
    b1: B,
    table: ProbeTable,
    family: Option<Family>,
    x: u32,
)
    requires
        b0.flat(),
        in_ram(table),
        probe::recognised(b0, b1, table, family),
        !of_table(table, x),
        x != 0x4002_1014,
        x != 0x4002_1018,
    ensures
        b1.flat(),
        reg::recall(b1.log(), x) == reg::recall(b0.log(), x),
{
    let (m1, m2, m3, m4, active, was) = choose|
        m1: B,
        m2: B,
        m3: B,
        m4: B,
        active: u32,
        was: bool,
    |
        {
            &&& #[trigger] probe::installed(b0, m1, table, active)
            &&& #[trigger] probe::armed(m1, m2, true, was)
            &&& #[trigger] probe::told(m2, m3, family)
            &&& #[trigger] probe::disarmed(m3, m4, was)
            &&& reg::ran(m4, b1, probe::vtor_script(active))
        };
    installed_leaves(b0, m1, table, active, x);
    installed_leaves(b0, m1, table, active, SHCSR_ADDR);
    armed_leaves(m1, m2, true, was, x);
    told_leaves(m2, m3, family, x);
    told_leaves(m2, m3, family, SHCSR_ADDR);
    rearming_restores(m1, m2, m3, m4, was, x);
    restored_leaves(m4, b1, active, x);
}

proof fn copied(src: u32, dst: u32, words: Seq<u32>, n: nat, k: int, w: u32)
    requires
        0 <= k < n <= VECTOR_TABLE_LEN,
        dst <= 0x3FFF_FF00,
    ensures
        reg::word_after(
            probe::copy_script(src, dst, words, n),
            reg::at(dst, (4 * k) as u32),
            w,
        ) == words[k],
    decreases n,
{
    broadcast use reg::group_after;

    if k < n - 1 {
        copied(src, dst, words, (n - 1) as nat, k, w);
    }
}

/// The probe's vector table is a copy of the one in use, but for the bus fault vector, which is
/// the probe's handler: every other handler is kept.
pub proof fn law_table_keeps_other_handlers<B: Bus>(
    b0: B,
    b1: B,
    table: ProbeTable,
    active: u32,
    k: int,
)
    requires
        b0.flat(),
        in_ram(table),
        active <= 0x1FFF_FF00,
        probe::installed(b0, b1, table, active),
        0 <= k < 16,
    ensures
        reg::recall(b1.log(), reg::at(table.addr, (4 * k) as u32)) == if k == 5 {
            table.entry
        } else {
            reg::recall(b0.log(), reg::at(active, (4 * k) as u32))
        },
{
    broadcast use reg::group_after;

    let words = choose|words: Seq<u32>|
        reg::ran(b0, b1, #[trigger] probe::install_script(table, active, words));
    let script = probe::install_script(table, active, words);
    let look = seq![Step::Load { addr: VTOR_ADDR, value: active }];
    let filled = probe::table_script(table, active, words);
    let pointed = probe::vtor_script(probe::aligned(table.addr));
    let x = reg::at(table.addr, (4 * k) as u32);
    let w = reg::recall(b0.log(), x);
    reg::ran_leaves(b0, b1, script, x);
    reg::word_after_append(look + filled, pointed, x, w);
    reg::word_after_append(look, filled, x, w);
    copied(active, table.addr, words, VECTOR_TABLE_LEN as nat, k, w);
    word_was_loaded(b0, b1, table, active, words, k);
}

proof fn copy_shape(src: u32, dst: u32, words: Seq<u32>, n: nat, k: int)
    requires
        0 <= k < n,
    ensures
        probe::copy_script(src, dst, words, n).len() == 2 * n,
        probe::copy_script(src, dst, words, n)[2 * k] == (Step::Load {
            addr: reg::at(src, (4 * k) as u32),
            value: words[k],
        }),
        probe::copy_script(src, dst, words, n).take(2 * k) == probe::copy_script(
            src,
            dst,
            words,
            k as nat,
        ),
    decreases n,
{
    let rest = probe::copy_script(src, dst, words, (n - 1) as nat);
    let whole = probe::copy_script(src, dst, words, n);
    if k < n - 1 {
        copy_shape(src, dst, words, (n - 1) as nat, k);
        assert(whole.take(2 * k) =~= rest.take(2 * k));
    } else {
        copy_len(src, dst, words, (n - 1) as nat);
        assert(whole.take(2 * k) =~= rest);
    }
}

proof fn copy_len(src: u32, dst: u32, words: Seq<u32>, n: nat)
    ensures
        probe::copy_script(src, dst, words, n).len() == 2 * n,
    decreases n,
{
    if n > 0 {
        copy_len(src, dst, words, (n - 1) as nat);
    }
}

proof fn word_was_loaded<B: Bus>(
    b0: B,
    b1: B,
    table: ProbeTable,
    active: u32,
    words: Seq<u32>,
    k: int,
)
    requires
        b0.flat(),
        in_ram(table),
        active <= 0x1FFF_FF00,
        0 <= k < VECTOR_TABLE_LEN,
        reg::ran(b0, b1, probe::install_script(table, active, words)),
    ensures
        words[k] == reg::recall(b0.log(), reg::at(active, (4 * k) as u32)),
{
    broadcast use reg::group_after;

    let script = probe::install_script(table, active, words);
    let look = seq![Step::Load { addr: VTOR_ADDR, value: active }];
    let n = VECTOR_TABLE_LEN as nat;
    let copy = probe::copy_script(active, table.addr, words, n);
    copy_shape(active, table.addr, words, n, k);
    let j: int = 1 + 2 * k;
    assert(script[j] == copy[2 * k]);
    reg::ran_loads(b0, b1, script, j);
    let before = probe::copy_script(active, table.addr, words, k as nat);
    assert(script.take(j) =~= look + before) by {
        assert(copy.take(2 * k) == before);
        copy_len(active, table.addr, words, k as nat);
        assert forall|i: int| 0 <= i < j implies script[i] == (look + before)[i] by {
            if i > 0 {
                assert(script[i] == copy[i - 1]);
                assert(copy[i - 1] == copy.take(2 * k)[i - 1]);
            }
        }
    }
    let a = reg::at(active, (4 * k) as u32);
    let w = reg::recall(b0.log(), a);
    reg::word_after_append(look, before, a, w);
    copy_leaves(active, table.addr, words, k as nat, a, w);
}

} // verus!
