//! What went over the bus, read off its log: the values stored to a register and loaded from it,
//! in order.

use vstd::prelude::*;

use crate::reg::{self, Access, Bus, Step, Want};

verus! {

/// The values stored to the 32-bit register at `x`, in order.
pub open spec fn stored(log: Seq<Access>, x: u32) -> Seq<u32>
    decreases log.len(),
{
    if log.len() == 0 {
        Seq::empty()
    } else {
        let before = stored(log.drop_last(), x);
        match log.last() {
            Access::Store { addr, value } => if addr == x {
                before.push(value)
            } else {
                before
            },
            _ => before,
        }
    }
}

/// The values loaded from the 32-bit register at `x`, in order.
pub open spec fn loaded(log: Seq<Access>, x: u32) -> Seq<u32>
    decreases log.len(),
{
    if log.len() == 0 {
        Seq::empty()
    } else {
        let before = loaded(log.drop_last(), x);
        match log.last() {
            Access::Load { addr, value } => if addr == x {
                before.push(value)
            } else {
                before
            },
            _ => before,
        }
    }
}

/// Where 16-bit values were stored and which, in order.
pub open spec fn halves(log: Seq<Access>) -> Seq<(u32, u16)>
    decreases log.len(),
{
    if log.len() == 0 {
        Seq::empty()
    } else {
        let before = halves(log.drop_last());
        match log.last() {
            Access::StoreHalf { addr, value } => before.push((addr, value)),
            _ => before,
        }
    }
}

/// The values a script stores to the register at `x`, in order.
pub open spec fn stores_of(script: Seq<Step>, x: u32) -> Seq<u32>
    decreases script.len(),
{
    if script.len() == 0 {
        Seq::empty()
    } else {
        let before = stores_of(script.drop_last(), x);
        match script.last() {
            Step::Store { addr, value } => if addr == x {
                before.push(value)
            } else {
                before
            },
            _ => before,
        }
    }
}

/// The values a script loads from the register at `x`, in order.
pub open spec fn loads_of(script: Seq<Step>, x: u32) -> Seq<u32>
    decreases script.len(),
{
    if script.len() == 0 {
        Seq::empty()
    } else {
        let before = loads_of(script.drop_last(), x);
        match script.last() {
            Step::Load { addr, value } => if addr == x {
                before.push(value)
            } else {
                before
            },
            _ => before,
        }
    }
}

/// Where a script stores 16-bit values and which, in order.
pub open spec fn halves_of(script: Seq<Step>) -> Seq<(u32, u16)>
    decreases script.len(),
{
    if script.len() == 0 {
        Seq::empty()
    } else {
        let before = halves_of(script.drop_last());
        match script.last() {
            Step::StoreHalf { addr, value } => before.push((addr, value)),
            _ => before,
        }
    }
}

/// A step that reaches the register at `x`, if it does, by one plain load or store.
pub open spec fn plain(step: Step, x: u32) -> bool {
    match step {
        Step::Discard { addr } => addr != x,
        Step::Modify { addr, .. } => addr != x,
        Step::Await { addr, .. } => addr != x,
        Step::Settle { addr, .. } => addr != x,
        _ => true,
    }
}

/// A script whose every step is plain.
pub open spec fn all_plain(script: Seq<Step>, x: u32) -> bool {
    forall|i: int| 0 <= i < script.len() ==> plain(#[trigger] script[i], x)
}

pub broadcast proof fn stored_push(log: Seq<Access>, a: Access, x: u32)
    ensures
        #[trigger] stored(log.push(a), x) == (match a {
            Access::Store { addr, value } => if addr == x {
                stored(log, x).push(value)
            } else {
                stored(log, x)
            },
            _ => stored(log, x),
        }),
{
    assert(log.push(a).drop_last() =~= log);
}

pub broadcast proof fn loaded_push(log: Seq<Access>, a: Access, x: u32)
    ensures
        #[trigger] loaded(log.push(a), x) == (match a {
            Access::Load { addr, value } => if addr == x {
                loaded(log, x).push(value)
            } else {
                loaded(log, x)
            },
            _ => loaded(log, x),
        }),
{
    assert(log.push(a).drop_last() =~= log);
}

pub broadcast proof fn halves_push(log: Seq<Access>, a: Access)
    ensures
        #[trigger] halves(log.push(a)) == (match a {
            Access::StoreHalf { addr, value } => halves(log).push((addr, value)),
            _ => halves(log),
        }),
{
    assert(log.push(a).drop_last() =~= log);
}

pub broadcast proof fn stores_of_push(script: Seq<Step>, step: Step, x: u32)
    ensures
        #[trigger] stores_of(script.push(step), x) == (match step {
            Step::Store { addr, value } => if addr == x {
                stores_of(script, x).push(value)
            } else {
                stores_of(script, x)
            },
            _ => stores_of(script, x),
        }),
{
    assert(script.push(step).drop_last() =~= script);
}

pub broadcast proof fn loads_of_push(script: Seq<Step>, step: Step, x: u32)
    ensures
        #[trigger] loads_of(script.push(step), x) == (match step {
            Step::Load { addr, value } => if addr == x {
                loads_of(script, x).push(value)
            } else {
                loads_of(script, x)
            },
            _ => loads_of(script, x),
        }),
{
    assert(script.push(step).drop_last() =~= script);
}

pub broadcast proof fn halves_of_push(script: Seq<Step>, step: Step)
    ensures
        #[trigger] halves_of(script.push(step)) == (match step {
            Step::StoreHalf { addr, value } => halves_of(script).push((addr, value)),
            _ => halves_of(script),
        }),
{
    assert(script.push(step).drop_last() =~= script);
}

pub broadcast proof fn of_empty(x: u32)
    ensures
        #[trigger] stores_of(Seq::<Step>::empty(), x) == Seq::<u32>::empty(),
        #[trigger] loads_of(Seq::<Step>::empty(), x) == Seq::<u32>::empty(),
{
}

pub broadcast proof fn halves_of_empty()
    ensures
        #[trigger] halves_of(Seq::<Step>::empty()) == Seq::<(u32, u16)>::empty(),
{
}

pub broadcast proof fn plain_push(script: Seq<Step>, step: Step, x: u32)
    ensures
        #[trigger] all_plain(script.push(step), x) == (all_plain(script, x) && plain(step, x)),
{
    let whole = script.push(step);
    if all_plain(whole, x) {
        assert(whole[script.len() as int] == step);
        assert forall|i: int| 0 <= i < script.len() implies plain(#[trigger] script[i], x) by {
            assert(whole[i] == script[i]);
        }
    }
}

pub broadcast proof fn plain_append(s1: Seq<Step>, s2: Seq<Step>, x: u32)
    requires
        all_plain(s1, x),
        all_plain(s2, x),
    ensures
        #[trigger] all_plain(s1 + s2, x),
{
}

pub broadcast proof fn plain_empty(x: u32)
    ensures
        #[trigger] all_plain(Seq::<Step>::empty(), x),
{
}

/// A script that reaches a register plainly, if at all, piece by piece.
pub broadcast group group_plain {
    plain_push,
    plain_append,
    plain_empty,
}

/// What a script stores and loads, step by step.
pub broadcast group group_of {
    stores_of_push,
    loads_of_push,
    halves_of_push,
    of_empty,
    halves_of_empty,
}

/// What two scripts store and load, one after the other.
pub proof fn of_append(s1: Seq<Step>, s2: Seq<Step>, x: u32)
    ensures
        stores_of(s1 + s2, x) == stores_of(s1, x) + stores_of(s2, x),
        loads_of(s1 + s2, x) == loads_of(s1, x) + loads_of(s2, x),
        halves_of(s1 + s2) == halves_of(s1) + halves_of(s2),
    decreases s2.len(),
{
    if s2.len() == 0 {
        assert(s1 + s2 =~= s1);
    } else {
        of_append(s1, s2.drop_last(), x);
        assert((s1 + s2).drop_last() =~= s1 + s2.drop_last());
        assert((s1 + s2).last() == s2.last());
        assert(stores_of(s1 + s2, x) =~= stores_of(s1, x) + stores_of(s2, x));
        assert(loads_of(s1 + s2, x) =~= loads_of(s1, x) + loads_of(s2, x));
        assert(halves_of(s1 + s2) =~= halves_of(s1) + halves_of(s2));
    }
}

/// Polls of another register leave no trace of this one.
pub proof fn missed_traces(
    before: Seq<Access>,
    after: Seq<Access>,
    addr: u32,
    want: Want,
    abort: u32,
    x: u32,
)
    requires
        reg::missed(before, after, addr, want, abort),
    ensures
        stored(after, x) == stored(before, x),
        addr != x ==> loaded(after, x) == loaded(before, x),
        halves(after) == halves(before),
    decreases after.len(),
{
    if after.len() == before.len() {
        assert(after.take(before.len() as int) =~= after);
    } else {
        let last = after[after.len() - 1];
        assert(after.drop_last().take(before.len() as int) =~= after.take(before.len() as int));
        missed_traces(before, after.drop_last(), addr, want, abort, x);
    }
}

proof fn takes_traces(before: Seq<Access>, after: Seq<Access>, step: Step, x: u32)
    requires
        reg::takes(before, after, step),
        plain(step, x),
    ensures
        stored(after, x) == stored(before, x) + stores_of(Seq::<Step>::empty().push(step), x),
        loaded(after, x) == loaded(before, x) + loads_of(Seq::<Step>::empty().push(step), x),
        halves(after) == halves(before) + halves_of(Seq::<Step>::empty().push(step)),
{
    broadcast use {stored_push, loaded_push, halves_push, group_of};

    match step {
        Step::Await { addr, want, abort, limit } => {
            missed_traces(before, after.drop_last(), addr, want, abort, x);
            assert(after =~= after.drop_last().push(after.last()));
        },
        Step::Settle { addr, want, limit } => {
            missed_traces(before, after.drop_last(), addr, want, 0, x);
            assert(after =~= after.drop_last().push(after.last()));
        },
        Step::Modify { addr, mask, bits } => {
            let v = choose|v: u32| #[trigger] reg::rewrites(before, after, addr, mask, bits, v);
        },
        _ => {},
    }
    assert(stored(after, x) =~= stored(before, x) + stores_of(Seq::<Step>::empty().push(step), x));
    assert(loaded(after, x) =~= loaded(before, x) + loads_of(Seq::<Step>::empty().push(step), x));
    assert(halves(after) =~= halves(before) + halves_of(Seq::<Step>::empty().push(step)));
}

/// What a script leaves in the log of a register that it reaches plainly.
pub proof fn performs_traces(before: Seq<Access>, after: Seq<Access>, script: Seq<Step>, x: u32)
    requires
        reg::performs(before, after, script),
        all_plain(script, x),
    ensures
        stored(after, x) == stored(before, x) + stores_of(script, x),
        loaded(after, x) == loaded(before, x) + loads_of(script, x),
        halves(after) == halves(before) + halves_of(script),
    decreases script.len(),
{
    broadcast use group_of;

    if script.len() == 0 {
        assert(stored(after, x) =~= stored(before, x) + stores_of(script, x));
        assert(loaded(after, x) =~= loaded(before, x) + loads_of(script, x));
        assert(halves(after) =~= halves(before) + halves_of(script));
    } else {
        let rest = script.drop_last();
        let step = script.last();
        assert(script =~= rest.push(step));
        let mid = reg::last_step(before, after, rest, step);
        assert(all_plain(rest, x)) by {
            assert forall|i: int| 0 <= i < rest.len() implies plain(#[trigger] rest[i], x) by {
                assert(rest[i] == script[i]);
            }
        }
        performs_traces(before, mid, rest, x);
        assert(plain(script[script.len() - 1], x));
        takes_traces(mid, after, step, x);
        assert(stored(after, x) =~= stored(before, x) + stores_of(script, x));
        assert(loaded(after, x) =~= loaded(before, x) + loads_of(script, x));
        assert(halves(after) =~= halves(before) + halves_of(script));
    }
}

/// What a run of a script leaves in the log of a register that it reaches plainly.
pub proof fn ran_traces<B: Bus>(b0: B, b1: B, script: Seq<Step>, x: u32)
    requires
        reg::ran(b0, b1, script),
        all_plain(script, x),
    ensures
        stored(b1.log(), x) == stored(b0.log(), x) + stores_of(script, x),
        loaded(b1.log(), x) == loaded(b0.log(), x) + loads_of(script, x),
        halves(b1.log()) == halves(b0.log()) + halves_of(script),
{
    performs_traces(b0.log(), b1.log(), script, x);
}

/// A wait that is not met leaves no trace of another register.
pub proof fn stuck_traces<B: Bus>(b0: B, b1: B, step: Step, x: u32)
    requires
        reg::stuck(b0, b1, step),
        plain(step, x),
    ensures
        stored(b1.log(), x) == stored(b0.log(), x),
        loaded(b1.log(), x) == loaded(b0.log(), x),
        halves(b1.log()) == halves(b0.log()),
{
    broadcast use {stored_push, loaded_push, halves_push};

    let after = b1.log();
    match step {
        Step::Await { addr, want, abort, limit } => {
            missed_traces(b0.log(), after.drop_last(), addr, want, abort, x);
            assert(after =~= after.drop_last().push(after.last()));
        },
        _ => {},
    }
}

/// Where 32-bit values were stored and which, in order.
pub open spec fn words(log: Seq<Access>) -> Seq<(u32, u32)>
    decreases log.len(),
{
    if log.len() == 0 {
        Seq::empty()
    } else {
        let before = words(log.drop_last());
        match log.last() {
            Access::Store { addr, value } => before.push((addr, value)),
            _ => before,
        }
    }
}

/// Where a script that modifies nothing stores 32-bit values and which, in order.
pub open spec fn words_of(script: Seq<Step>) -> Seq<(u32, u32)>
    decreases script.len(),
{
    if script.len() == 0 {
        Seq::empty()
    } else {
        let before = words_of(script.drop_last());
        match script.last() {
            Step::Store { addr, value } => before.push((addr, value)),
            _ => before,
        }
    }
}

/// A script that modifies nothing.
pub open spec fn no_modify(script: Seq<Step>) -> bool {
    forall|i: int| 0 <= i < script.len() ==> !(#[trigger] script[i] is Modify)
}

pub broadcast proof fn words_push(log: Seq<Access>, a: Access)
    ensures
        #[trigger] words(log.push(a)) == (match a {
            Access::Store { addr, value } => words(log).push((addr, value)),
            _ => words(log),
        }),
{
    assert(log.push(a).drop_last() =~= log);
}

pub broadcast proof fn words_of_push(script: Seq<Step>, step: Step)
    ensures
        #[trigger] words_of(script.push(step)) == (match step {
            Step::Store { addr, value } => words_of(script).push((addr, value)),
            _ => words_of(script),
        }),
{
    assert(script.push(step).drop_last() =~= script);
}

pub broadcast proof fn words_of_empty()
    ensures
        #[trigger] words_of(Seq::<Step>::empty()) == Seq::<(u32, u32)>::empty(),
{
}

/// Where a script stores words, step by step.
pub broadcast group group_words {
    words_of_push,
    words_of_empty,
}

proof fn missed_words(
    before: Seq<Access>,
    after: Seq<Access>,
    addr: u32,
    want: Want,
    abort: u32,
)
    requires
        reg::missed(before, after, addr, want, abort),
    ensures
        words(after) == words(before),
    decreases after.len(),
{
    if after.len() == before.len() {
        assert(after.take(before.len() as int) =~= after);
    } else {
        let last = after[after.len() - 1];
        assert(after.drop_last().take(before.len() as int) =~= after.take(before.len() as int));
        missed_words(before, after.drop_last(), addr, want, abort);
    }
}

/// What a script that modifies nothing leaves in the log.
pub proof fn performs_words(before: Seq<Access>, after: Seq<Access>, script: Seq<Step>)
    requires
        reg::performs(before, after, script),
        no_modify(script),
    ensures
        words(after) == words(before) + words_of(script),
    decreases script.len(),
{
    broadcast use {words_push, group_words};

    if script.len() == 0 {
        assert(words(after) =~= words(before) + words_of(script));
    } else {
        let rest = script.drop_last();
        let step = script.last();
        assert(script =~= rest.push(step));
        let mid = reg::last_step(before, after, rest, step);
        assert(no_modify(rest)) by {
            assert forall|i: int| 0 <= i < rest.len() implies !(#[trigger] rest[i] is Modify) by {
                assert(rest[i] == script[i]);
            }
        }
        performs_words(before, mid, rest);
        assert(!(script[script.len() - 1] is Modify));
        match step {
            Step::Await { addr, want, abort, limit } => {
                missed_words(mid, after.drop_last(), addr, want, abort);
                assert(after =~= after.drop_last().push(after.last()));
            },
            Step::Settle { addr, want, limit } => {
                missed_words(mid, after.drop_last(), addr, want, 0);
                assert(after =~= after.drop_last().push(after.last()));
            },
            _ => {},
        }
        assert(words(after) =~= words(before) + words_of(script));
    }
}

} // verus!
