//! Register access: the bus every driver talks through, and the language its contracts are
//! written in.
//!
//! A driver never touches hardware directly. It performs 32-bit and 16-bit loads and stores on a
//! [`Bus`], and its contract says which accesses it performs, in which order, as a script of
//! [`Step`]s. What a load returns is up to the hardware; a contract speaks of it only where the
//! driver does.

use vstd::prelude::*;

use crate::bits;

verus! {

/// One access to the bus, with the value that went over it.
#[allow(inconsistent_fields)]
#[derive(Clone, Copy, PartialEq, Eq, Structural)]
pub enum Access {
    /// A 32-bit load and what it returned.
    Load { addr: u32, value: u32 },
    /// A 32-bit store.
    Store { addr: u32, value: u32 },
    /// A 16-bit load and what it returned.
    LoadHalf { addr: u32, value: u16 },
    /// A 16-bit store.
    StoreHalf { addr: u32, value: u16 },
    /// A memory barrier: every access before it is complete before any after it begins.
    Fence,
    /// A 32-bit load under an armed fault window: `None` when it faulted.
    Probe { addr: u32, value: Option<u32> },
}

/// What the 32-bit cell at `addr` holds after the accesses of `log`, in a register space that
/// keeps what was stored in it and starts out zero.
pub open spec fn recall(log: Seq<Access>, addr: u32) -> u32
    decreases log.len(),
{
    if log.len() == 0 {
        0
    } else {
        match log.last() {
            Access::Store { addr: a, value } => if a == addr {
                value
            } else {
                recall(log.drop_last(), addr)
            },
            _ => recall(log.drop_last(), addr),
        }
    }
}

/// What the 16-bit cell at `addr` holds after the accesses of `log`; 16-bit cells are kept apart
/// from 32-bit ones, so an access of the wrong width never finds the value.
pub open spec fn recall_half(log: Seq<Access>, addr: u32) -> u16
    decreases log.len(),
{
    if log.len() == 0 {
        0
    } else {
        match log.last() {
            Access::StoreHalf { addr: a, value } => if a == addr {
                value
            } else {
                recall_half(log.drop_last(), addr)
            },
            _ => recall_half(log.drop_last(), addr),
        }
    }
}

/// What one more access makes of what a cell holds.
pub broadcast proof fn recall_push(log: Seq<Access>, x: Access, addr: u32)
    ensures
        #[trigger] recall(log.push(x), addr) == (match x {
            Access::Store { addr: a, value } => if a == addr {
                value
            } else {
                recall(log, addr)
            },
            _ => recall(log, addr),
        }),
{
    assert(log.push(x).drop_last() =~= log);
}

/// The access `x`, made after `log`, returned what the cell it read holds.
pub open spec fn faithful(log: Seq<Access>, x: Access) -> bool {
    match x {
        Access::Load { addr, value } => value == recall(log, addr),
        Access::LoadHalf { addr, value } => value == recall_half(log, addr),
        Access::Probe { addr, value } => value == Some(recall(log, addr)),
        _ => true,
    }
}

/// A register bus.
///
/// `log` is the history of accesses; `flat` tells a plain register space (memory with no device
/// behind it) from hardware. Only in a flat space does a load return what was last stored.
pub trait Bus: Sized {
    /// Every access made so far.
    spec fn log(&self) -> Seq<Access>;

    /// No device stands behind the registers: they keep what is stored in them.
    spec fn flat(&self) -> bool;

    /// Load the 32-bit register at `addr`.
    fn load(&mut self, addr: u32) -> (value: u32)
        ensures
            final(self).log() == old(self).log().push(Access::Load { addr, value }),
            final(self).flat() == old(self).flat(),
            old(self).flat() ==> value == recall(old(self).log(), addr),
    ;

    /// Store `value` to the 32-bit register at `addr`.
    fn store(&mut self, addr: u32, value: u32)
        ensures
            final(self).log() == old(self).log().push(Access::Store { addr, value }),
            final(self).flat() == old(self).flat(),
    ;

    /// Load the 16-bit cell at `addr`.
    fn load_half(&mut self, addr: u32) -> (value: u16)
        ensures
            final(self).log() == old(self).log().push(Access::LoadHalf { addr, value }),
            final(self).flat() == old(self).flat(),
            old(self).flat() ==> value == recall_half(old(self).log(), addr),
    ;

    /// Store `value` to the 16-bit cell at `addr`.
    fn store_half(&mut self, addr: u32, value: u16)
        ensures
            final(self).log() == old(self).log().push(Access::StoreHalf { addr, value }),
            final(self).flat() == old(self).flat(),
    ;

    /// Complete every earlier access before any later one.
    fn fence(&mut self)
        ensures
            final(self).log() == old(self).log().push(Access::Fence),
            final(self).flat() == old(self).flat(),
    ;

    /// Load the 32-bit register at `addr` inside an armed fault window: `None` when the load
    /// raised a bus fault. A flat space raises none.
    fn probe(&mut self, addr: u32) -> (value: Option<u32>)
        ensures
            final(self).log() == old(self).log().push(Access::Probe { addr, value }),
            final(self).flat() == old(self).flat(),
            old(self).flat() ==> value == Some(recall(old(self).log(), addr)),
    ;

    /// Whether this is a flat register space.
    fn is_flat(&self) -> (r: bool)
        ensures
            r == self.flat(),
    ;
}

/// The address of the register at `offset` in the block at `base`.
pub open spec fn at(base: u32, offset: u32) -> u32 {
    base.wrapping_add(offset)
}

/// `old` with the bits of `mask` replaced by those of `bits`.
pub open spec fn merge(old_value: u32, mask: u32, bits: u32) -> u32 {
    (old_value & !mask) | (bits & mask)
}

/// What a poll of a register waits for.
#[derive(Clone, Copy, PartialEq, Eq, Structural)]
pub enum Want {
    /// Some bit of `mask` is set.
    High { mask: u32 },
    /// Every bit of `mask` is clear.
    Low { mask: u32 },
    /// The bits of `mask` read `value`.
    Reads { mask: u32, value: u32 },
}

impl Want {
    /// Whether a register that reads `v` is what the poll waits for.
    pub open spec fn met(self, v: u32) -> bool {
        match self {
            Want::High { mask } => v & mask != 0,
            Want::Low { mask } => v & mask == 0,
            Want::Reads { mask, value } => v & mask == value,
        }
    }

    fn is_met(self, v: u32) -> (r: bool)
        ensures
            r == self.met(v),
    {
        match self {
            Want::High { mask } => v & mask != 0,
            Want::Low { mask } => v & mask == 0,
            Want::Reads { mask, value } => v & mask == value,
        }
    }
}

/// One thing a driver does on the bus.
#[allow(inconsistent_fields)]
pub enum Step {
    /// A 32-bit load that returns `value`.
    Load { addr: u32, value: u32 },
    /// A 32-bit load whose value is not looked at.
    Discard { addr: u32 },
    /// A 32-bit store.
    Store { addr: u32, value: u32 },
    /// A load followed by a store of what was loaded with the bits of `mask` replaced by `bits`.
    Modify { addr: u32, mask: u32, bits: u32 },
    /// Loads until one meets `want`: at most `limit` of them, of which none before the last meets
    /// `want` or has a bit of `abort` set.
    Await { addr: u32, want: Want, abort: u32, limit: u64 },
    /// Loads until one meets `want` or `limit` of them are made, whichever comes first.
    Settle { addr: u32, want: Want, limit: u64 },
    /// A 16-bit load that returns `value`.
    LoadHalf { addr: u32, value: u16 },
    /// A 16-bit store.
    StoreHalf { addr: u32, value: u16 },
    /// A memory barrier.
    Fence,
    /// A load in an armed fault window, with its outcome.
    Probe { addr: u32, value: Option<u32> },
}

/// `after` is `before` followed by loads of `addr`, none of which meets `want` or has a bit of
/// `abort` set.
pub open spec fn missed(
    before: Seq<Access>,
    after: Seq<Access>,
    addr: u32,
    want: Want,
    abort: u32,
) -> bool {
    &&& before.len() <= after.len()
    &&& after.take(before.len() as int) == before
    &&& forall|i: int|
        before.len() <= i < after.len() ==> {
            &&& #[trigger] after[i] matches Access::Load { addr: a, value }
            &&& a == addr
            &&& !want.met(value)
            &&& value & abort == 0
        }
}

/// The value of the last access, a load.
pub open spec fn last_load(log: Seq<Access>) -> u32 {
    match log.last() {
        Access::Load { addr, value } => value,
        _ => 0,
    }
}

/// A load that returns `v` and the store of `v` with the bits of `mask` replaced by `bits` lead
/// from `before` to `after`.
pub open spec fn rewrites(
    before: Seq<Access>,
    after: Seq<Access>,
    addr: u32,
    mask: u32,
    bits: u32,
    v: u32,
) -> bool {
    after == before.push(Access::Load { addr, value: v }).push(
        Access::Store { addr, value: merge(v, mask, bits) },
    )
}

/// A load and a store back, with the bits of `mask` replaced by `bits`, lead from `before` to
/// `after`.
pub open spec fn modifies(
    before: Seq<Access>,
    after: Seq<Access>,
    addr: u32,
    mask: u32,
    bits: u32,
) -> bool {
    exists|v: u32| #[trigger] rewrites(before, after, addr, mask, bits, v)
}

/// The accesses of `step` lead from `before` to `after`.
pub open spec fn takes(before: Seq<Access>, after: Seq<Access>, step: Step) -> bool {
    match step {
        Step::Load { addr, value } => after == before.push(Access::Load { addr, value }),
        Step::Discard { addr } => after == before.push(
            Access::Load { addr, value: last_load(after) },
        ),
        Step::Store { addr, value } => after == before.push(Access::Store { addr, value }),
        Step::Modify { addr, mask, bits } => modifies(before, after, addr, mask, bits),
        Step::Await { addr, want, abort, limit } => {
            &&& before.len() < after.len() <= before.len() + limit
            &&& missed(before, after.drop_last(), addr, want, abort)
            &&& after.last() == (Access::Load { addr, value: last_load(after) })
            &&& want.met(last_load(after))
        },
        Step::Settle { addr, want, limit } => {
            &&& before.len() < after.len() <= before.len() + limit
            &&& missed(before, after.drop_last(), addr, want, 0)
            &&& after.last() == (Access::Load { addr, value: last_load(after) })
            &&& !want.met(last_load(after)) ==> after.len() == before.len() + limit
        },
        Step::LoadHalf { addr, value } => after == before.push(Access::LoadHalf { addr, value }),
        Step::StoreHalf { addr, value } => after == before.push(Access::StoreHalf { addr, value }),
        Step::Fence => after == before.push(Access::Fence),
        Step::Probe { addr, value } => after == before.push(Access::Probe { addr, value }),
    }
}

/// The wait of `step` leads from `before` to `after` without being met: either the last load has
/// a bit of the wait's `abort` set, or the wait's `limit` is spent.
pub open spec fn gives_up(before: Seq<Access>, after: Seq<Access>, step: Step) -> bool {
    match step {
        Step::Await { addr, want, abort, limit } => {
            &&& before.len() < after.len() <= before.len() + limit
            &&& missed(before, after.drop_last(), addr, want, abort)
            &&& after.last() == (Access::Load { addr, value: last_load(after) })
            &&& !want.met(last_load(after))
            &&& last_load(after) & abort == 0 ==> after.len() == before.len() + limit
        },
        _ => false,
    }
}

/// The steps of `script`, in order, lead from `before` to `after`.
pub open spec fn performs(before: Seq<Access>, after: Seq<Access>, script: Seq<Step>) -> bool
    decreases script.len(),
{
    if script.len() == 0 {
        before == after
    } else {
        exists|mid: Seq<Access>|
            performs(before, mid, script.drop_last()) && #[trigger] takes(mid, after, script.last())
    }
}

/// Every load between `before` and `after` returned what the cell it read holds.
pub open spec fn retained(before: Seq<Access>, after: Seq<Access>) -> bool {
    &&& before.len() <= after.len()
    &&& after.take(before.len() as int) == before
    &&& forall|i: int|
        before.len() <= i < after.len() ==> faithful(after.take(i), #[trigger] after[i])
}

/// The bus stays what it is from `b0` to `b1`: earlier accesses are not forgotten, and a flat
/// space stays flat and keeps what is stored in it.
pub open spec fn steady<B: Bus>(b0: B, b1: B) -> bool {
    &&& b0.flat() == b1.flat()
    &&& b0.log().len() <= b1.log().len()
    &&& b1.log().take(b0.log().len() as int) == b0.log()
    &&& b0.flat() ==> retained(b0.log(), b1.log())
}

/// One step on a bus.
pub open spec fn did<B: Bus>(b0: B, b1: B, step: Step) -> bool {
    steady(b0, b1) && takes(b0.log(), b1.log(), step)
}

/// A script run to its end on a bus.
pub open spec fn ran<B: Bus>(b0: B, b1: B, script: Seq<Step>) -> bool {
    steady(b0, b1) && performs(b0.log(), b1.log(), script)
}

/// A wait on a bus that was not met.
pub open spec fn stuck<B: Bus>(b0: B, b1: B, step: Step) -> bool {
    steady(b0, b1) && gives_up(b0.log(), b1.log(), step)
}

/// A script broken off at the wait in place `k`: the steps before it were performed, and the wait
/// was not met.
pub open spec fn broke<B: Bus>(b0: B, b1: B, script: Seq<Step>, k: int) -> bool {
    &&& 0 <= k < script.len()
    &&& exists|m: B| ran(b0, m, script.take(k)) && #[trigger] stuck(m, b1, script[k])
}

/// A bus is steady across no access at all.
pub broadcast proof fn steady_refl<B: Bus>(b: B)
    ensures
        #[trigger] steady(b, b),
{
    assert(b.log().take(b.log().len() as int) =~= b.log());
}

/// Steadiness composes.
pub proof fn steady_trans<B: Bus>(b0: B, b1: B, b2: B)
    requires
        steady(b0, b1),
        steady(b1, b2),
    ensures
        steady(b0, b2),
{
    let n0 = b0.log().len() as int;
    let n1 = b1.log().len() as int;
    assert(b2.log().take(n0) =~= b2.log().take(n1).take(n0));
    if b0.flat() {
        assert forall|i: int| n0 <= i < b2.log().len() implies faithful(
            b2.log().take(i),
            #[trigger] b2.log()[i],
        ) by {
            if i < n1 {
                assert(b2.log()[i] == b2.log().take(n1)[i]);
                assert(b2.log().take(i) =~= b1.log().take(i));
                assert(faithful(b1.log().take(i), b1.log()[i]));
            }
        }
    }
}

/// One access that is faithful in a flat space leaves the bus steady.
pub proof fn steady_access<B: Bus>(b0: B, b1: B, x: Access)
    requires
        b0.flat() == b1.flat(),
        b1.log() == b0.log().push(x),
        b0.flat() ==> faithful(b0.log(), x),
    ensures
        steady(b0, b1),
{
    assert(b1.log().take(b0.log().len() as int) =~= b0.log());
}

/// The empty script is performed by doing nothing.
pub proof fn ran_nothing<B: Bus>(b: B)
    ensures
        ran(b, b, Seq::<Step>::empty()),
{
    steady_refl(b);
}

/// A script grows by the step that follows it.
pub broadcast proof fn ran_then<B: Bus>(b0: B, b1: B, b2: B, script: Seq<Step>, step: Step)
    requires
        #[trigger] ran(b0, b1, script),
        #[trigger] did(b1, b2, step),
    ensures
        ran(b0, b2, script.push(step)),
{
    steady_trans(b0, b1, b2);
    assert(script.push(step).drop_last() =~= script);
    assert(takes(b1.log(), b2.log(), script.push(step).last()));
}

/// The last step of a script and what came before it.
pub proof fn last_step(before: Seq<Access>, after: Seq<Access>, script: Seq<Step>, step: Step) -> (mid:
    Seq<Access>)
    requires
        performs(before, after, script.push(step)),
    ensures
        performs(before, mid, script),
        takes(mid, after, step),
{
    let whole = script.push(step);
    assert(whole.drop_last() =~= script);
    choose|mid: Seq<Access>|
        performs(before, mid, whole.drop_last()) && #[trigger] takes(mid, after, whole.last())
}

/// Where the first of two scripts ends and the second begins.
pub proof fn cut(before: Seq<Access>, after: Seq<Access>, s1: Seq<Step>, s2: Seq<Step>) -> (mid:
    Seq<Access>)
    requires
        performs(before, after, s1 + s2),
    ensures
        performs(before, mid, s1),
        performs(mid, after, s2),
    decreases s2.len(),
{
    if s2.len() == 0 {
        assert(s1 + s2 =~= s1);
        after
    } else {
        let rest = s2.drop_last();
        assert(s1 + s2 =~= (s1 + rest).push(s2.last()));
        let late = last_step(before, after, s1 + rest, s2.last());
        let mid = cut(before, late, s1, rest);
        assert(takes(late, after, s2.last()));
        mid
    }
}

/// One step is a script of its own.
pub proof fn ran_one<B: Bus>(b0: B, b1: B, step: Step)
    requires
        did(b0, b1, step),
    ensures
        ran(b0, b1, seq![step]),
{
    ran_nothing(b0);
    ran_then(b0, b0, b1, Seq::<Step>::empty(), step);
}

proof fn performs_append(
    l0: Seq<Access>,
    l1: Seq<Access>,
    l2: Seq<Access>,
    s1: Seq<Step>,
    s2: Seq<Step>,
)
    requires
        performs(l0, l1, s1),
        performs(l1, l2, s2),
    ensures
        performs(l0, l2, s1 + s2),
    decreases s2.len(),
{
    if s2.len() == 0 {
        assert(s1 + s2 =~= s1);
    } else {
        let mid = choose|mid: Seq<Access>|
            performs(l1, mid, s2.drop_last()) && #[trigger] takes(mid, l2, s2.last());
        performs_append(l0, l1, mid, s1, s2.drop_last());
        assert((s1 + s2).drop_last() =~= s1 + s2.drop_last());
        assert((s1 + s2).last() == s2.last());
    }
}

/// Two scripts, one after the other.
pub proof fn ran_append<B: Bus>(b0: B, b1: B, b2: B, s1: Seq<Step>, s2: Seq<Step>)
    requires
        ran(b0, b1, s1),
        ran(b1, b2, s2),
    ensures
        ran(b0, b2, s1 + s2),
{
    steady_trans(b0, b1, b2);
    performs_append(b0.log(), b1.log(), b2.log(), s1, s2);
}

/// A step, or the same wait with at least the limit.
pub open spec fn as_patient(s1: Step, s2: Step) -> bool {
    match (s1, s2) {
        (
            Step::Await { addr: a1, want: w1, abort: b1, limit: l1 },
            Step::Await { addr: a2, want: w2, abort: b2, limit: l2 },
        ) => a1 == a2 && w1 == w2 && b1 == b2 && l1 <= l2,
        _ => s1 == s2,
    }
}

/// What runs to its end does so too where the waits may last longer.
pub proof fn patience<B: Bus>(b0: B, b1: B, s1: Seq<Step>, s2: Seq<Step>)
    requires
        ran(b0, b1, s1),
        s1.len() == s2.len(),
        forall|i: int| 0 <= i < s1.len() ==> as_patient(#[trigger] s1[i], s2[i]),
    ensures
        ran(b0, b1, s2),
{
    performs_patience(b0.log(), b1.log(), s1, s2);
}

proof fn performs_patience(l0: Seq<Access>, l1: Seq<Access>, s1: Seq<Step>, s2: Seq<Step>)
    requires
        performs(l0, l1, s1),
        s1.len() == s2.len(),
        forall|i: int| 0 <= i < s1.len() ==> as_patient(#[trigger] s1[i], s2[i]),
    ensures
        performs(l0, l1, s2),
    decreases s1.len(),
{
    if s1.len() > 0 {
        let mid = choose|mid: Seq<Access>|
            performs(l0, mid, s1.drop_last()) && #[trigger] takes(mid, l1, s1.last());
        assert forall|i: int| 0 <= i < s1.drop_last().len() implies as_patient(
            #[trigger] s1.drop_last()[i],
            s2.drop_last()[i],
        ) by {
            assert(as_patient(s1[i], s2[i]));
        }
        performs_patience(l0, mid, s1.drop_last(), s2.drop_last());
        let n = s1.len() - 1;
        assert(as_patient(s1[n], s2[n]));
        assert(takes(mid, l1, s2.last()));
    }
}

/// A wait that is not met breaks off any script it is the next step of.
pub proof fn broke_at<B: Bus>(b0: B, b1: B, b2: B, script: Seq<Step>, k: int)
    requires
        0 <= k < script.len(),
        ran(b0, b1, script.take(k)),
        stuck(b1, b2, script[k]),
    ensures
        broke(b0, b2, script, k),
        steady(b0, b2),
{
    steady_trans(b0, b1, b2);
}

/// A 32-bit register.
#[derive(Debug, Clone, Copy, PartialEq, Eq, Structural)]
pub struct Reg32 {
    pub addr: u32,
}

impl Reg32 {
    /// The register at `offset` in the block at `base`.
    pub fn new(base: u32, offset: u32) -> (r: Reg32)
        ensures
            r.addr == at(base, offset),
    {
        Reg32 { addr: base.wrapping_add(offset) }
    }

    /// Load the register.
    pub fn read<B: Bus>(&self, bus: &mut B) -> (value: u32)
        ensures
            did(*old(bus), *final(bus), Step::Load { addr: self.addr, value }),
            last_load(final(bus).log()) == value,
    {
        let value: u32 = bus.load(self.addr);
        proof {
            steady_access(*old(bus), *bus, Access::Load { addr: self.addr, value });
        }
        value
    }

    /// Store to the register.
    pub fn write<B: Bus>(&self, bus: &mut B, value: u32)
        ensures
            did(*old(bus), *final(bus), Step::Store { addr: self.addr, value }),
    {
        bus.store(self.addr, value);
        proof {
            steady_access(*old(bus), *bus, Access::Store { addr: self.addr, value });
        }
    }

    /// Load the register, replace the bits of `mask` by those of `bits`, and store it back.
    pub fn modify<B: Bus>(&self, bus: &mut B, mask: u32, bits: u32)
        ensures
            did(*old(bus), *final(bus), Step::Modify { addr: self.addr, mask, bits }),
    {
        let v: u32 = bus.load(self.addr);
        let ghost mid = *bus;
        proof {
            steady_access(*old(bus), mid, Access::Load { addr: self.addr, value: v });
        }
        let merged: u32 = (v & !mask) | (bits & mask);
        bus.store(self.addr, merged);
        proof {
            steady_access(mid, *bus, Access::Store { addr: self.addr, value: merged });
            steady_trans(*old(bus), mid, *bus);
            assert(rewrites(old(bus).log(), bus.log(), self.addr, mask, bits, v));
            assert(modifies(old(bus).log(), bus.log(), self.addr, mask, bits));
        }
    }

    /// Load the register until it meets `want`, at most `limit` times.
    ///
    /// `Ok` holds the value that met `want`. `Err` holds the last value loaded: one with a bit of
    /// `abort` set, at which the wait is broken off, or the one that spent the limit.
    pub fn poll<B: Bus>(&self, bus: &mut B, want: Want, abort: u32, limit: u64) -> (r: Result<
        u32,
        u32,
    >)
        requires
            limit > 0,
        ensures
            match r {
                Ok(v) => {
                    &&& did(
                        *old(bus),
                        *final(bus),
                        Step::Await { addr: self.addr, want, abort, limit },
                    )
                    &&& want.met(v)
                    &&& v == last_load(final(bus).log())
                },
                Err(v) => {
                    &&& stuck(
                        *old(bus),
                        *final(bus),
                        Step::Await { addr: self.addr, want, abort, limit },
                    )
                    &&& !want.met(v)
                    &&& v == last_load(final(bus).log())
                },
            },
    {
        let ghost b0 = *bus;
        let mut left: u64 = limit;
        proof {
            steady_refl(b0);
        }
        loop
            invariant
                b0 == *old(bus),
                0 < left <= limit,
                steady(b0, *bus),
                missed(b0.log(), bus.log(), self.addr, want, abort),
                bus.log().len() == b0.log().len() + (limit - left),
            decreases left,
        {
            let ghost b1 = *bus;
            let v: u32 = bus.load(self.addr);
            proof {
                steady_access(b1, *bus, Access::Load { addr: self.addr, value: v });
                steady_trans(b0, b1, *bus);
                assert(bus.log().drop_last() =~= b1.log());
            }
            if want.is_met(v) {
                return Ok(v);
            }
            if v & abort != 0 {
                return Err(v);
            }
            left = left - 1;
            if left == 0 {
                return Err(v);
            }
            proof {
                assert(bus.log().take(b0.log().len() as int) =~= b1.log().take(
                    b0.log().len() as int,
                ));
            }
        }
    }
}

impl Reg32 {
    /// Load the register and drop what it returned.
    pub fn discard<B: Bus>(&self, bus: &mut B)
        ensures
            did(*old(bus), *final(bus), Step::Discard { addr: self.addr }),
    {
        let _: u32 = self.read(bus);
    }

    /// Load the register until it meets `want` or `limit` loads are made.
    pub fn settle<B: Bus>(&self, bus: &mut B, want: Want, limit: u64)
        requires
            limit > 0,
        ensures
            did(*old(bus), *final(bus), Step::Settle { addr: self.addr, want, limit }),
    {
        let r: Result<u32, u32> = self.poll(bus, want, 0, limit);
        proof {
            let v = last_load(bus.log());
            bits::no_bits(v);
        }
    }
}

/// A 16-bit cell.
#[derive(Debug, Clone, Copy, PartialEq, Eq, Structural)]
pub struct Reg16 {
    pub addr: u32,
}

impl Reg16 {
    /// The cell at `offset` in the block at `base`.
    pub fn new(base: u32, offset: u32) -> (r: Reg16)
        ensures
            r.addr == at(base, offset),
    {
        Reg16 { addr: base.wrapping_add(offset) }
    }

    /// Load the cell.
    pub fn read<B: Bus>(&self, bus: &mut B) -> (value: u16)
        ensures
            did(*old(bus), *final(bus), Step::LoadHalf { addr: self.addr, value }),
            old(bus).flat() ==> value == recall_half(old(bus).log(), self.addr),
    {
        let value: u16 = bus.load_half(self.addr);
        proof {
            steady_access(*old(bus), *bus, Access::LoadHalf { addr: self.addr, value });
        }
        value
    }

    /// Store to the cell.
    pub fn write<B: Bus>(&self, bus: &mut B, value: u16)
        ensures
            did(*old(bus), *final(bus), Step::StoreHalf { addr: self.addr, value }),
    {
        bus.store_half(self.addr, value);
        proof {
            steady_access(*old(bus), *bus, Access::StoreHalf { addr: self.addr, value });
        }
    }
}

/// Complete every earlier access before any later one.
pub fn fence<B: Bus>(bus: &mut B)
    ensures
        did(*old(bus), *final(bus), Step::Fence),
{
    bus.fence();
    proof {
        steady_access(*old(bus), *bus, Access::Fence);
    }
}

/// Load the register at `addr` inside an armed fault window.
pub fn probe<B: Bus>(bus: &mut B, addr: u32) -> (value: Option<u32>)
    ensures
        did(*old(bus), *final(bus), Step::Probe { addr, value }),
{
    let value: Option<u32> = bus.probe(addr);
    proof {
        steady_access(*old(bus), *bus, Access::Probe { addr, value });
    }
    value
}

// --- what a script leaves in a flat register space -------------------------------------------

/// What `step` makes of the 32-bit cell at `addr`, in a flat space where it held `w` before.
pub open spec fn word_step(step: Step, addr: u32, w: u32) -> u32 {
    match step {
        Step::Store { addr: a, value } => if a == addr {
            value
        } else {
            w
        },
        Step::Modify { addr: a, mask, bits } => if a == addr {
            merge(w, mask, bits)
        } else {
            w
        },
        _ => w,
    }
}

/// What the 32-bit cell at `addr` holds after `script`, in a flat space where it held `w` before.
pub open spec fn word_after(script: Seq<Step>, addr: u32, w: u32) -> u32
    decreases script.len(),
{
    if script.len() == 0 {
        w
    } else {
        word_step(script.last(), addr, word_after(script.drop_last(), addr, w))
    }
}

/// What `step` makes of the 16-bit cell at `addr`, in a flat space where it held `h` before.
pub open spec fn half_step(step: Step, addr: u32, h: u16) -> u16 {
    match step {
        Step::StoreHalf { addr: a, value } => if a == addr {
            value
        } else {
            h
        },
        _ => h,
    }
}

/// What the 16-bit cell at `addr` holds after `script`, in a flat space where it held `h` before.
pub open spec fn half_after(script: Seq<Step>, addr: u32, h: u16) -> u16
    decreases script.len(),
{
    if script.len() == 0 {
        h
    } else {
        half_step(script.last(), addr, half_after(script.drop_last(), addr, h))
    }
}

pub broadcast proof fn word_after_empty(addr: u32, w: u32)
    ensures
        #[trigger] word_after(Seq::<Step>::empty(), addr, w) == w,
{
}

pub broadcast proof fn word_after_push(script: Seq<Step>, step: Step, addr: u32, w: u32)
    ensures
        #[trigger] word_after(script.push(step), addr, w) == word_step(
            step,
            addr,
            word_after(script, addr, w),
        ),
{
    assert(script.push(step).drop_last() =~= script);
}

pub proof fn word_after_append(s1: Seq<Step>, s2: Seq<Step>, addr: u32, w: u32)
    ensures
        word_after(s1 + s2, addr, w) == word_after(s2, addr, word_after(s1, addr, w)),
    decreases s2.len(),
{
    if s2.len() == 0 {
        assert(s1 + s2 =~= s1);
    } else {
        word_after_append(s1, s2.drop_last(), addr, w);
        assert((s1 + s2).drop_last() =~= s1 + s2.drop_last());
    }
}

pub broadcast proof fn half_after_empty(addr: u32, h: u16)
    ensures
        #[trigger] half_after(Seq::<Step>::empty(), addr, h) == h,
{
}

pub broadcast proof fn half_after_push(script: Seq<Step>, step: Step, addr: u32, h: u16)
    ensures
        #[trigger] half_after(script.push(step), addr, h) == half_step(
            step,
            addr,
            half_after(script, addr, h),
        ),
{
    assert(script.push(step).drop_last() =~= script);
}

pub proof fn half_after_append(s1: Seq<Step>, s2: Seq<Step>, addr: u32, h: u16)
    ensures
        half_after(s1 + s2, addr, h) == half_after(s2, addr, half_after(s1, addr, h)),
    decreases s2.len(),
{
    if s2.len() == 0 {
        assert(s1 + s2 =~= s1);
    } else {
        half_after_append(s1, s2.drop_last(), addr, h);
        assert((s1 + s2).drop_last() =~= s1 + s2.drop_last());
    }
}

/// What a script leaves behind, step by step.
pub broadcast group group_after {
    word_after_empty,
    word_after_push,
    half_after_empty,
    half_after_push,
}

proof fn missed_keeps(
    before: Seq<Access>,
    after: Seq<Access>,
    addr: u32,
    want: Want,
    abort: u32,
    x: u32,
)
    requires
        missed(before, after, addr, want, abort),
    ensures
        recall(after, x) == recall(before, x),
        recall_half(after, x) == recall_half(before, x),
    decreases after.len(),
{
    if after.len() == before.len() {
        assert(after.take(before.len() as int) =~= after);
    } else {
        let last = after[after.len() - 1];
        assert(after.drop_last().take(before.len() as int) =~= after.take(before.len() as int));
        missed_keeps(before, after.drop_last(), addr, want, abort, x);
    }
}

proof fn takes_leaves(before: Seq<Access>, after: Seq<Access>, step: Step, x: u32)
    requires
        takes(before, after, step),
        retained(before, after),
    ensures
        recall(after, x) == word_step(step, x, recall(before, x)),
        recall_half(after, x) == half_step(step, x, recall_half(before, x)),
{
    reveal_with_fuel(recall, 3);
    reveal_with_fuel(recall_half, 3);
    match step {
        Step::Await { addr, want, abort, limit } => {
            missed_keeps(before, after.drop_last(), addr, want, abort, x);
        },
        Step::Settle { addr, want, limit } => {
            missed_keeps(before, after.drop_last(), addr, want, 0, x);
        },
        Step::Modify { addr, mask, bits } => {
            let v = choose|v: u32|
                #[trigger] rewrites(before, after, addr, mask, bits, v);
            let n = before.len() as int;
            assert(after[n] == (Access::Load { addr, value: v }));
            assert(after.take(n) =~= before);
            assert(faithful(after.take(n), after[n]));
            assert(after.drop_last() =~= before.push(Access::Load { addr, value: v }));
            assert(after.drop_last().drop_last() =~= before);
        },
        _ => {
            assert(after.drop_last() =~= before);
        },
    }
}

pub proof fn performs_longer(before: Seq<Access>, after: Seq<Access>, script: Seq<Step>)
    requires
        performs(before, after, script),
    ensures
        before.len() <= after.len(),
        after.take(before.len() as int) == before,
    decreases script.len(),
{
    if script.len() == 0 {
        assert(after.take(before.len() as int) =~= before);
    } else {
        let mid = choose|mid: Seq<Access>|
            performs(before, mid, script.drop_last()) && #[trigger] takes(
                mid,
                after,
                script.last(),
            );
        performs_longer(before, mid, script.drop_last());
        takes_longer(mid, after, script.last());
        assert(after.take(before.len() as int) =~= after.take(mid.len() as int).take(
            before.len() as int,
        ));
    }
}

pub proof fn takes_longer(before: Seq<Access>, after: Seq<Access>, step: Step)
    requires
        takes(before, after, step),
    ensures
        before.len() <= after.len(),
        after.take(before.len() as int) == before,
{
    match step {
        Step::Await { .. } => {
            assert(after.take(before.len() as int) =~= after.drop_last().take(before.len() as int));
        },
        Step::Settle { .. } => {
            assert(after.take(before.len() as int) =~= after.drop_last().take(before.len() as int));
        },
        _ => {
            assert(after.take(before.len() as int) =~= before);
        },
    }
}

proof fn retained_prefix(l0: Seq<Access>, l1: Seq<Access>, l2: Seq<Access>)
    requires
        retained(l0, l2),
        l0.len() <= l1.len() <= l2.len(),
        l2.take(l1.len() as int) == l1,
    ensures
        retained(l0, l1),
        retained(l1, l2),
{
    assert(l1.take(l0.len() as int) =~= l2.take(l0.len() as int));
    assert forall|i: int| l0.len() <= i < l1.len() implies faithful(
        l1.take(i),
        #[trigger] l1[i],
    ) by {
        assert(l1[i] == l2[i]);
        assert(l1.take(i) =~= l2.take(i));
    }
}

proof fn performs_leaves(before: Seq<Access>, after: Seq<Access>, script: Seq<Step>, x: u32)
    requires
        performs(before, after, script),
        retained(before, after),
    ensures
        recall(after, x) == word_after(script, x, recall(before, x)),
        recall_half(after, x) == half_after(script, x, recall_half(before, x)),
    decreases script.len(),
{
    if script.len() > 0 {
        let rest = script.drop_last();
        let step = script.last();
        let mid = choose|mid: Seq<Access>|
            performs(before, mid, rest) && #[trigger] takes(mid, after, step);
        performs_longer(before, mid, rest);
        takes_longer(mid, after, step);
        retained_prefix(before, mid, after);
        performs_leaves(before, mid, rest, x);
        takes_leaves(mid, after, step, x);
    }
}

/// What a script leaves in a flat register space is what [`word_after`] and [`half_after`] say, at
/// every address.
pub proof fn ran_leaves<B: Bus>(b0: B, b1: B, script: Seq<Step>, x: u32)
    requires
        b0.flat(),
        ran(b0, b1, script),
    ensures
        recall(b1.log(), x) == word_after(script, x, recall(b0.log(), x)),
        recall_half(b1.log(), x) == half_after(script, x, recall_half(b0.log(), x)),
{
    performs_leaves(b0.log(), b1.log(), script, x);
}

/// In a flat space the last load of a wait shows what the register holds.
pub proof fn did_shows<B: Bus>(b0: B, b1: B, step: Step)
    requires
        b0.flat(),
        did(b0, b1, step),
    ensures
        match step {
            Step::Await { addr, .. } => last_load(b1.log()) == recall(b0.log(), addr),
            Step::Settle { addr, .. } => last_load(b1.log()) == recall(b0.log(), addr),
            Step::Load { addr, value } => value == recall(b0.log(), addr),
            Step::LoadHalf { addr, value } => value == recall_half(b0.log(), addr),
            _ => true,
        },
{
    let after = b1.log();
    let n = after.len() - 1;
    match step {
        Step::Await { addr, want, abort, limit } => {
            assert(after.take(n) =~= after.drop_last());
            assert(faithful(after.take(n), after[n]));
            missed_keeps(b0.log(), after.drop_last(), addr, want, abort, addr);
        },
        Step::Settle { addr, want, limit } => {
            assert(after.take(n) =~= after.drop_last());
            assert(faithful(after.take(n), after[n]));
            missed_keeps(b0.log(), after.drop_last(), addr, want, 0, addr);
        },
        Step::Load { addr, value } => {
            assert(after.take(n) =~= b0.log());
            assert(faithful(after.take(n), after[n]));
        },
        Step::LoadHalf { addr, value } => {
            assert(after.take(n) =~= b0.log());
            assert(faithful(after.take(n), after[n]));
        },
        _ => {},
    }
}

proof fn performs_loads(before: Seq<Access>, after: Seq<Access>, script: Seq<Step>, j: int)
    requires
        performs(before, after, script),
        retained(before, after),
        0 <= j < script.len(),
    ensures
        match script[j] {
            Step::Load { addr, value } => value == word_after(
                script.take(j),
                addr,
                recall(before, addr),
            ),
            Step::LoadHalf { addr, value } => value == half_after(
                script.take(j),
                addr,
                recall_half(before, addr),
            ),
            _ => true,
        },
    decreases script.len(),
{
    let rest = script.drop_last();
    let step = script.last();
    let mid = choose|mid: Seq<Access>|
        performs(before, mid, rest) && #[trigger] takes(mid, after, step);
    performs_longer(before, mid, rest);
    takes_longer(mid, after, step);
    retained_prefix(before, mid, after);
    if j < rest.len() {
        performs_loads(before, mid, rest, j);
        assert(rest.take(j) =~= script.take(j));
    } else {
        assert(script.take(j) =~= rest);
        let n = mid.len() as int;
        match step {
            Step::Load { addr, value } => {
                performs_leaves(before, mid, rest, addr);
                assert(after.take(n) =~= mid);
                assert(faithful(after.take(n), after[n]));
            },
            Step::LoadHalf { addr, value } => {
                performs_leaves(before, mid, rest, addr);
                assert(after.take(n) =~= mid);
                assert(faithful(after.take(n), after[n]));
            },
            _ => {},
        }
    }
}

/// In a flat space a load of a script returns what the steps before it left.
pub proof fn ran_loads<B: Bus>(b0: B, b1: B, script: Seq<Step>, j: int)
    requires
        b0.flat(),
        ran(b0, b1, script),
        0 <= j < script.len(),
    ensures
        match script[j] {
            Step::Load { addr, value } => value == word_after(
                script.take(j),
                addr,
                recall(b0.log(), addr),
            ),
            Step::LoadHalf { addr, value } => value == half_after(
                script.take(j),
                addr,
                recall_half(b0.log(), addr),
            ),
            _ => true,
        },
{
    performs_loads(b0.log(), b1.log(), script, j);
}

/// What one step leaves in a flat register space.
pub proof fn did_leaves<B: Bus>(b0: B, b1: B, step: Step, x: u32)
    requires
        b0.flat(),
        did(b0, b1, step),
    ensures
        recall(b1.log(), x) == word_step(step, x, recall(b0.log(), x)),
        recall_half(b1.log(), x) == half_step(step, x, recall_half(b0.log(), x)),
        b1.flat(),
{
    takes_leaves(b0.log(), b1.log(), step, x);
}

// --- laws -------------------------------------------------------------------------------------

/// A register lies its offset behind the base of its block, modulo the range of an address.
pub proof fn law_addresses(base: u32, offset: u32)
    ensures
        at(base, offset) == (base + offset) % 0x1_0000_0000,
{
}

/// Of one bit, a wait for high is met where it reads 1 and a wait for low where it reads 0; of more
/// bits, one of the two is met, and low means that all of them read 0.
pub proof fn law_wants(mask: u32, value: u32, n: u32, v: u32)
    requires
        n < 32,
    ensures
        (Want::High { mask: 1u32 << n }).met(v) <==> (v >> n) & 1 == 1,
        (Want::Low { mask: 1u32 << n }).met(v) <==> (v >> n) & 1 == 0,
        (Want::High { mask }).met(v) <==> !(Want::Low { mask }).met(v),
        (Want::Low { mask }).met(v) <==> (Want::Reads { mask, value: 0 }).met(v),
        (Want::Reads { mask, value }).met(v) <==> v & mask == value,
{
    bits::one_bit(v, n);
}

/// A wait that is met is a number of loads of its register, at least one and at most its limit, of
/// which the last meets it and no other does; none before the last is a reason to break off.
pub proof fn law_met_wait(
    before: Seq<Access>,
    after: Seq<Access>,
    addr: u32,
    want: Want,
    abort: u32,
    limit: u64,
    i: int,
)
    requires
        takes(before, after, (Step::Await { addr, want, abort, limit })),
        before.len() <= i < after.len(),
    ensures
        1 <= after.len() - before.len() <= limit,
        after.take(before.len() as int) == before,
        after[i] matches Access::Load { addr: a, value } && a == addr && (want.met(value) <==> i
            == after.len() - 1) && (value & abort != 0 ==> i == after.len() - 1),
{
    let polls = after.drop_last();
    assert(polls.take(before.len() as int) =~= after.take(before.len() as int));
    if i < after.len() - 1 {
        assert(polls[i] == after[i]);
    }
}

/// A wait that is given up is a number of loads of its register of which none meets it: as many as
/// its limit, or fewer where the last is a reason to break off.
pub proof fn law_given_up_wait(
    before: Seq<Access>,
    after: Seq<Access>,
    addr: u32,
    want: Want,
    abort: u32,
    limit: u64,
    i: int,
)
    requires
        gives_up(before, after, (Step::Await { addr, want, abort, limit })),
        before.len() <= i < after.len(),
    ensures
        1 <= after.len() - before.len() <= limit,
        after.take(before.len() as int) == before,
        after[i] matches Access::Load { addr: a, value } && a == addr && !want.met(value) && (value
            & abort != 0 ==> i == after.len() - 1) && (i == after.len() - 1 && value & abort == 0
            ==> after.len() - before.len() == limit),
{
    let polls = after.drop_last();
    assert(polls.take(before.len() as int) =~= after.take(before.len() as int));
    if i < after.len() - 1 {
        assert(polls[i] == after[i]);
    }
}

/// A register that is modified is loaded once and stored once: the bits of the mask as given, every
/// other bit as it was loaded.
pub proof fn law_modify(before: Seq<Access>, after: Seq<Access>, addr: u32, mask: u32, new: u32)
    requires
        takes(before, after, (Step::Modify { addr, mask, bits: new })),
    ensures
        after.len() == before.len() + 2,
        after.take(before.len() as int) == before,
        after[before.len() as int] matches Access::Load { addr: a, value: v } && a == addr && (
        after.last() matches Access::Store { addr: b, value: u } && b == addr && u & mask == new
            & mask && u & !mask == v & !mask),
{
    let v = choose|v: u32| #[trigger] rewrites(before, after, addr, mask, new, v);
    bits::merge_fields(v, mask, new, 0);
    assert(after.take(before.len() as int) =~= before);
}

/// A register of a flat space holds what was stored to it last, and zero where nothing was; loads,
/// fences and stores elsewhere, or of the other width, do not change it.
pub proof fn law_recall(log: Seq<Access>, addr: u32, i: int)
    requires
        -1 <= i < log.len(),
        forall|j: int|
            i < j < log.len() ==> !(#[trigger] log[j] matches Access::Store { addr: a, .. } && a
                == addr),
    ensures
        i == -1 ==> recall(log, addr) == 0,
        i >= 0 ==> (log[i] matches Access::Store { addr: a, value } ==> (a == addr ==> recall(log, addr)
            == value)),
    decreases log.len(),
{
    if log.len() > 0 && i < log.len() - 1 {
        let rest = log.drop_last();
        assert forall|j: int| i < j < rest.len() implies !(#[trigger] rest[j] matches Access::Store {
            addr: a,
            ..
        } && a == addr) by {
            assert(rest[j] == log[j]);
        }
        law_recall(rest, addr, i);
        assert(log[log.len() - 1] == log.last());
    }
}

/// The same of a cell of 16 bits.
pub proof fn law_recall_half(log: Seq<Access>, addr: u32, i: int)
    requires
        -1 <= i < log.len(),
        forall|j: int|
            i < j < log.len() ==> !(#[trigger] log[j] matches Access::StoreHalf { addr: a, .. } && a
                == addr),
    ensures
        i == -1 ==> recall_half(log, addr) == 0,
        i >= 0 ==> (log[i] matches Access::StoreHalf { addr: a, value } ==> (a == addr ==> recall_half(
            log,
            addr,
        ) == value)),
    decreases log.len(),
{
    if log.len() > 0 && i < log.len() - 1 {
        let rest = log.drop_last();
        assert forall|j: int| i < j < rest.len() implies !(
        #[trigger] rest[j] matches Access::StoreHalf { addr: a, .. } && a == addr) by {
            assert(rest[j] == log[j]);
        }
        law_recall_half(rest, addr, i);
        assert(log[log.len() - 1] == log.last());
    }
}

} // verus!
