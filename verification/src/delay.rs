//! Delays as counts of the core clock.
//!
//! A delay is never shorter than asked for: counts are rounded up. The counter takes 24 bits at a
//! time, so a long delay is a sequence of shorter ones.

use vstd::prelude::*;

verus! {

/// The most the counter takes at a time.
pub const SYSTICK_RELOAD_MAX: u32 = 0x00FF_FFFF;

/// `a * b`, or the largest value where that does not fit.
pub open spec fn capped_product(a: u64, b: u64) -> u64 {
    if a * b <= u64::MAX {
        (a * b) as u64
    } else {
        u64::MAX
    }
}

/// A quotient rounded up.
pub open spec fn rounded_up(n: u64, d: u64) -> int {
    (n + d - 1) / d as int
}

fn product(a: u64, b: u64) -> (r: u64)
    ensures
        r == capped_product(a, b),
{
    match a.checked_mul(b) {
        Some(p) => p,
        None => u64::MAX,
    }
}

fn quotient(n: u64, d: u64) -> (r: u64)
    requires
        d > 1,
    ensures
        r == rounded_up(n, d),
        r * d >= n,
        r > 0 ==> (r - 1) * d < n,
{
    let q: u64 = n / d;
    let rest: u64 = n % d;
    proof {
        let (a, b) = (n as int, d as int);
        vstd::arithmetic::div_mod::lemma_fundamental_div_mod(a, b);
        assert(q * b == b * q) by (nonlinear_arith);
        assert((q + 1) * b == b * q + b) by (nonlinear_arith);
        assert((q - 1) * b == b * q - b) by (nonlinear_arith);
        if rest == 0 {
            vstd::arithmetic::div_mod::lemma_fundamental_div_mod_converse(
                a + b - 1,
                b,
                q as int,
                b - 1,
            );
        } else {
            vstd::arithmetic::div_mod::lemma_fundamental_div_mod_converse(
                a + b - 1,
                b,
                q + 1,
                rest - 1,
            );
        }
        assert(q < u64::MAX) by (nonlinear_arith)
            requires
                a == b * q + rest,
                b > 1,
                a <= u64::MAX,
                rest >= 0,
        ;
    }
    if rest == 0 {
        q
    } else {
        q + 1
    }
}

/// The clocks of a number of nanoseconds.
pub fn cycles_for_ns(ns: u64, hz: u32) -> (r: u64)
    ensures
        r == rounded_up(capped_product(ns, hz as u64), 1_000_000_000),
        ns * hz <= u64::MAX ==> r * 1_000_000_000 >= ns * hz,
        ns * hz <= u64::MAX && r > 0 ==> (r - 1) * 1_000_000_000 < ns * hz,
        ns * hz > u64::MAX ==> r == 18_446_744_074,
{
    quotient(product(ns, hz as u64), 1_000_000_000)
}

/// The clocks of a number of microseconds.
pub fn cycles_for_us(us: u32, hz: u32) -> (r: u64)
    ensures
        r == rounded_up(capped_product(us as u64, hz as u64), 1_000_000),
        r * 1_000_000 >= us * hz,
        r > 0 ==> (r - 1) * 1_000_000 < us * hz,
{
    proof {
        law_short_units_fit(us, hz);
    }
    quotient(product(us as u64, hz as u64), 1_000_000)
}

/// The clocks of a number of milliseconds.
pub fn cycles_for_ms(ms: u32, hz: u32) -> (r: u64)
    ensures
        r == rounded_up(capped_product(ms as u64, hz as u64), 1_000),
        r * 1_000 >= ms * hz,
        r > 0 ==> (r - 1) * 1_000 < ms * hz,
{
    proof {
        law_short_units_fit(ms, hz);
    }
    quotient(product(ms as u64, hz as u64), 1_000)
}

/// A delay that is being counted out.
#[derive(Debug, Clone, Copy, PartialEq, Eq, Structural)]
pub struct Countdown {
    /// The clocks still to wait.
    pub left: u64,
}

impl Countdown {
    /// A delay of so many clocks.
    pub fn new(cycles: u64) -> (r: Countdown)
        ensures
            r.left == cycles,
    {
        Countdown { left: cycles }
    }

    /// The next count: what the counter is to be loaded with, which is one less than the clocks it
    /// takes; nothing where the delay is over.
    pub fn next_reload(&mut self) -> (r: Option<u32>)
        ensures
            match r {
                None => old(self).left == 0 && final(self).left == 0,
                Some(reload) => {
                    &&& reload < 0x00FF_FFFF
                    &&& final(self).left + reload + 1 == old(self).left
                    &&& old(self).left > 0x00FF_FFFF ==> reload + 1 == 0x00FF_FFFF
                    &&& old(self).left <= 0x00FF_FFFF ==> final(self).left == 0
                    &&& counted_out(old(self).left as nat) == reload + 1 + counted_out(
                        final(self).left as nat,
                    )
                },
            },
    {
        if self.left == 0 {
            return None;
        }
        let chunk: u32 = if self.left > SYSTICK_RELOAD_MAX as u64 {
            SYSTICK_RELOAD_MAX
        } else {
            self.left as u32
        };
        self.left = self.left - chunk as u64;
        Some(chunk - 1)
    }
}

/// The clocks that the counts of a delay take in all.
pub open spec fn counted_out(left: nat) -> nat
    decreases left,
{
    if left == 0 {
        0
    } else if left > 0x00FF_FFFF {
        0x00FF_FFFF + counted_out((left - 0x00FF_FFFF) as nat)
    } else {
        left
    }
}

/// A delay counted out in pieces takes exactly the clocks it was asked for.
pub proof fn law_pieces_add_up(left: nat)
    ensures
        counted_out(left) == left,
    decreases left,
{
    if left > 0x00FF_FFFF {
        law_pieces_add_up((left - 0x00FF_FFFF) as nat);
    }
}

/// Microseconds and milliseconds never exceed the range of the count, so they are never shortened.
pub proof fn law_short_units_fit(n: u32, hz: u32)
    ensures
        capped_product(n as u64, hz as u64) == n * hz,
{
    assert(n * hz <= 0xFFFF_FFFF * 0xFFFF_FFFF) by (nonlinear_arith)
        requires
            n <= 0xFFFF_FFFF,
            hz <= 0xFFFF_FFFF,
    ;
}

} // verus!
