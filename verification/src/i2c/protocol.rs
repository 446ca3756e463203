//! The order in which the block is driven, as its manual asks for it.
//!
//! The registers of the block lie at 0x00 (control), 0x10 (data), 0x14 and 0x18 (status). In the
//! control register bit 8 requests a START, bit 9 a STOP, bit 10 has received bytes acknowledged
//! and bit 11 has that govern the byte after the next. In the first status register bit 0 tells
//! that START was sent, bit 1 that the address was acknowledged, bit 2 that a byte is through with
//! none to follow, bit 6 that a byte has come and bit 7 that there is room for one; bits 8 to 11
//! are errors.

use vstd::prelude::*;

use crate::clock::ClockConfig;
use crate::error::I2cError;
use crate::i2c::{self, FastDuty, I2c, I2cTiming};
use crate::reg::{self, Access, Bus, Step, Want};

verus! {

/// Setting bits of the control register.
pub open spec fn sets(base: u32, mask: u32) -> Step {
    Step::Modify { addr: reg::at(base, 0), mask, bits: mask }
}

/// Clearing bits of the control register.
pub open spec fn clears(base: u32, mask: u32) -> Step {
    Step::Modify { addr: reg::at(base, 0), mask, bits: 0 }
}

/// Waiting for a bit of the first status register; any of the errors ends the wait.
pub open spec fn waits(base: u32, flag: u32) -> Step {
    Step::Await {
        addr: reg::at(base, 0x14),
        want: Want::High { mask: flag },
        abort: 0xF00,
        limit: 100_000,
    }
}

/// Reading the two status registers, which lets the acknowledged address go.
pub open spec fn lets_go(base: u32) -> Seq<Step> {
    seq![Step::Discard { addr: reg::at(base, 0x14) }, Step::Discard { addr: reg::at(base, 0x18) }]
}

/// Taking `v` from the data register.
pub open spec fn takes(base: u32, v: u32) -> Step {
    Step::Load { addr: reg::at(base, 0x10), value: v }
}

proof fn bytes_steps(base: u32, bytes: Seq<u8>, i: int)
    requires
        0 <= i < bytes.len(),
    ensures
        ({
            let s = i2c::bytes_script(base, bytes);
            &&& s.len() == 2 * bytes.len()
            &&& s[2 * i] == waits(base, 0x80)
            &&& s[2 * i + 1] == (Step::Store { addr: reg::at(base, 0x10), value: bytes[i] as u32 })
        }),
    decreases bytes.len(),
{
    let rest = bytes.drop_last();
    if rest.len() > 0 {
        if i < rest.len() {
            bytes_steps(base, rest, i);
        } else {
            bytes_steps(base, rest, 0);
        }
    } else {
        assert(i2c::bytes_script(base, rest).len() == 0);
    }
}

/// A write: acknowledge on and START; the address once START was sent; when it was acknowledged,
/// both status registers are read to let it go; each byte when there is room for it; after the
/// last, a wait until it is through; and then, if asked for, a STOP.
pub proof fn law_write_protocol(base: u32, addr7: u8, bytes: Seq<u8>, stop: bool)
    ensures
        ({
            let s = i2c::write_script(base, addr7, bytes, stop);
            let n = bytes.len() as int;
            let sent = if n == 0 {
                7
            } else {
                8 + 2 * n
            };
            &&& s.len() == sent + if stop {
                1int
            } else {
                0
            }
            &&& s[0] == sets(base, 0x400)
            &&& s[1] == sets(base, 0x100)
            &&& s[2] == waits(base, 1)
            &&& s[3] matches Step::Store { addr, .. } && addr == reg::at(base, 0x10)
            &&& s[4] == waits(base, 2)
            &&& s[5] == lets_go(base)[0]
            &&& s[6] == lets_go(base)[1]
            &&& forall|i: int|
                0 <= i < n ==> {
                    &&& #[trigger] s[7 + 2 * i] == waits(base, 0x80)
                    &&& s[8 + 2 * i] == (Step::Store {
                        addr: reg::at(base, 0x10),
                        value: bytes[i] as u32,
                    })
                }
            &&& n > 0 ==> s[7 + 2 * n] == waits(base, 4)
            &&& stop ==> s[sent] == sets(base, 0x200)
        }),
{
    let n = bytes.len() as int;
    let s = i2c::write_script(base, addr7, bytes, stop);
    if n > 0 {
        bytes_steps(base, bytes, 0);
        let put = i2c::bytes_script(base, bytes);
        assert forall|i: int| 0 <= i < n implies {
            &&& #[trigger] s[7 + 2 * i] == waits(base, 0x80)
            &&& s[8 + 2 * i] == (Step::Store {
                addr: reg::at(base, 0x10),
                value: bytes[i] as u32,
            })
        } by {
            bytes_steps(base, bytes, i);
            assert(s[7 + 2 * i] == put[2 * i]);
            assert(s[8 + 2 * i] == put[2 * i + 1]);
        }
    }
}

/// A read of one byte: no acknowledge for it, STOP requested as soon as the address is let go, and
/// the byte taken when it has come.
pub proof fn law_read_one_protocol(base: u32, addr7: u8, v: u32)
    ensures
        ({
            let s = i2c::read_script(base, addr7, seq![v]);
            &&& s[3] matches Step::Store { addr, .. } && addr == reg::at(base, 0x10)
            &&& s == seq![
                sets(base, 0x400),
                sets(base, 0x100),
                waits(base, 1),
                s[3],
                clears(base, 0x400),
                waits(base, 2),
                lets_go(base)[0],
                lets_go(base)[1],
                sets(base, 0x200),
                waits(base, 0x40),
                takes(base, v),
                sets(base, 0x400),
            ]
        }),
{
    let s = i2c::read_script(base, addr7, seq![v]);
    assert(s =~= seq![
        sets(base, 0x400),
        sets(base, 0x100),
        waits(base, 1),
        s[3],
        clears(base, 0x400),
        waits(base, 2),
        lets_go(base)[0],
        lets_go(base)[1],
        sets(base, 0x200),
        waits(base, 0x40),
        takes(base, v),
        sets(base, 0x400),
    ]);
}

/// A read of two bytes: the acknowledge is moved to the second before START and taken away before
/// the address is let go; both bytes are in before STOP is requested; then the acknowledge is moved
/// back.
pub proof fn law_read_two_protocol(base: u32, addr7: u8, v0: u32, v1: u32)
    ensures
        ({
            let s = i2c::read_script(base, addr7, seq![v0, v1]);
            &&& s[4] matches Step::Store { addr, .. } && addr == reg::at(base, 0x10)
            &&& s == seq![
                sets(base, 0x400),
                sets(base, 0x800),
                sets(base, 0x100),
                waits(base, 1),
                s[4],
                clears(base, 0x400),
                waits(base, 2),
                lets_go(base)[0],
                lets_go(base)[1],
                waits(base, 4),
                sets(base, 0x200),
                takes(base, v0),
                waits(base, 0x40),
                takes(base, v1),
                clears(base, 0x800),
                sets(base, 0x400),
            ]
        }),
{
    let s = i2c::read_script(base, addr7, seq![v0, v1]);
    assert(s =~= seq![
        sets(base, 0x400),
        sets(base, 0x800),
        sets(base, 0x100),
        waits(base, 1),
        s[4],
        clears(base, 0x400),
        waits(base, 2),
        lets_go(base)[0],
        lets_go(base)[1],
        waits(base, 4),
        sets(base, 0x200),
        takes(base, v0),
        waits(base, 0x40),
        takes(base, v1),
        clears(base, 0x800),
        sets(base, 0x400),
    ]);
}

proof fn burst_steps(base: u32, data: Seq<u32>, i: int)
    requires
        0 <= i < data.len(),
    ensures
        ({
            let s = i2c::burst(base, data);
            &&& s.len() == 2 * data.len()
            &&& s[2 * i] == waits(base, 0x40)
            &&& s[2 * i + 1] == takes(base, data[i])
        }),
    decreases data.len(),
{
    let rest = data.drop_last();
    if rest.len() > 0 {
        if i < rest.len() {
            burst_steps(base, rest, i);
        } else {
            burst_steps(base, rest, 0);
        }
    } else {
        assert(i2c::burst(base, rest).len() == 0);
    }
}

/// A read of three bytes or more: all but three are taken as they come. With the third last in and
/// the second last behind it the acknowledge is taken away, so that the last byte is not
/// acknowledged; with the last two in STOP is requested. No decision is taken while a byte is on
/// the wire.
pub proof fn law_read_many_protocol(base: u32, addr7: u8, data: Seq<u32>)
    requires
        data.len() >= 3,
    ensures
        ({
            let s = i2c::read_script(base, addr7, data);
            let n = data.len() as int;
            let m = 7 + 2 * (n - 3);
            &&& s.len() == m + 9
            &&& s[0] == sets(base, 0x400)
            &&& s[1] == sets(base, 0x100)
            &&& s[2] == waits(base, 1)
            &&& s[3] matches Step::Store { addr, .. } && addr == reg::at(base, 0x10)
            &&& s[4] == waits(base, 2)
            &&& s[5] == lets_go(base)[0]
            &&& s[6] == lets_go(base)[1]
            &&& forall|i: int|
                0 <= i < n - 3 ==> {
                    &&& #[trigger] s[7 + 2 * i] == waits(base, 0x40)
                    &&& s[8 + 2 * i] == takes(base, data[i])
                }
            &&& s[m] == waits(base, 4)
            &&& s[m + 1] == clears(base, 0x400)
            &&& s[m + 2] == takes(base, data[n - 3])
            &&& s[m + 3] == waits(base, 4)
            &&& s[m + 4] == sets(base, 0x200)
            &&& s[m + 5] == takes(base, data[n - 2])
            &&& s[m + 6] == waits(base, 0x40)
            &&& s[m + 7] == takes(base, data[n - 1])
            &&& s[m + 8] == sets(base, 0x400)
        }),
{
    let n = data.len() as int;
    let s = i2c::read_script(base, addr7, data);
    let front = data.take(n - 3);
    let mid = i2c::burst(base, front);
    if n > 3 {
        burst_steps(base, front, 0);
    }
    assert(mid.len() == 2 * (n - 3));
    assert forall|i: int| 0 <= i < n - 3 implies {
        &&& #[trigger] s[7 + 2 * i] == waits(base, 0x40)
        &&& s[8 + 2 * i] == takes(base, data[i])
    } by {
        burst_steps(base, front, i);
        assert(s[7 + 2 * i] == mid[2 * i]);
        assert(s[8 + 2 * i] == mid[2 * i + 1]);
    }
}

/// What programs a block, after reset or at bring-up.
pub open spec fn programs(base: u32, t: I2cTiming) -> Seq<Step> {
    seq![
        Step::Modify { addr: reg::at(base, 0x04), mask: 0x7F, bits: t.i2cclk },
        Step::Store { addr: reg::at(base, 0x20), value: t.rt },
        Step::Store { addr: reg::at(base, 0x1C), value: t.ckcfg },
        clears(base, 2),
        Step::Store { addr: reg::at(base, 0x08), value: 0x24 },
        sets(base, 1),
        sets(base, 0x400),
    ]
}

/// Bring-up and recovery: a block is given its clock, rise time and divider, put into I2C mode with
/// its own address, switched on and made to acknowledge. Recovery clears the error flags, releases
/// the bus with a STOP if the block is its master, and then looks: a block that is busy without
/// being master, or that has a START or STOP pending, is reset and programmed anew. In any case the
/// acknowledge ends up on, and on the next byte.
pub proof fn law_recovery_protocol(
    base: u32,
    t: I2cTiming,
    stat0: u32,
    stat1: u32,
    stat1_after: u32,
    ctl0_after: u32,
)
    ensures
        i2c::init_script(base, t) == programs(base, t),
        i2c::recover_script(base, t, stat0, stat1, stat1_after, ctl0_after) == seq![
            Step::Load { addr: reg::at(base, 0x14), value: stat0 },
            Step::Store { addr: reg::at(base, 0x14), value: stat0 & !0xF00u32 },
            Step::Load { addr: reg::at(base, 0x18), value: stat1 },
        ] + (if stat1 & 1 != 0 {
            seq![
                sets(base, 0x200),
                Step::Settle {
                    addr: reg::at(base, 0),
                    want: Want::Low { mask: 0x200 },
                    limit: 10_000,
                },
            ]
        } else {
            Seq::empty()
        }) + seq![
            Step::Load { addr: reg::at(base, 0x18), value: stat1_after },
            Step::Load { addr: reg::at(base, 0), value: ctl0_after },
        ] + (if stat1_after & 3 == 2 || ctl0_after & 0x300 != 0 {
            seq![
                Step::Store { addr: reg::at(base, 0), value: 0x8000 },
                Step::Store { addr: reg::at(base, 0), value: 0 },
            ] + programs(base, t)
        } else {
            Seq::empty()
        }) + seq![clears(base, 0x800), sets(base, 0x400)],
{
    assert(i2c::init_script(base, t) =~= programs(base, t));
    let released = seq![
        Step::Load { addr: reg::at(base, 0x14), value: stat0 },
        Step::Store { addr: reg::at(base, 0x14), value: stat0 & !0xF00u32 },
        Step::Load { addr: reg::at(base, 0x18), value: stat1 },
    ] + (if stat1 & 1 != 0 {
        seq![
            sets(base, 0x200),
            Step::Settle {
                addr: reg::at(base, 0),
                want: Want::Low { mask: 0x200 },
                limit: 10_000,
            },
        ]
    } else {
        Seq::empty()
    });
    assert(i2c::release_script(base, stat0, stat1) =~= released);
    let reset = seq![
        Step::Store { addr: reg::at(base, 0), value: 0x8000u32 },
        Step::Store { addr: reg::at(base, 0), value: 0 },
    ] + programs(base, t);
    assert(i2c::reinit_script(base, t) =~= reset);
    let looked = released + seq![
        Step::Load { addr: reg::at(base, 0x18), value: stat1_after },
        Step::Load { addr: reg::at(base, 0), value: ctl0_after },
    ];
    assert(i2c::release_script(base, stat0, stat1).push(
        Step::Load { addr: reg::at(base, i2c::STAT1), value: stat1_after },
    ).push(Step::Load { addr: reg::at(base, i2c::CTL0), value: ctl0_after }) =~= looked);
    let last = seq![clears(base, 0x800), sets(base, 0x400)];
    let whole = i2c::recover_script(base, t, stat0, stat1, stat1_after, ctl0_after);
    if stat1_after & 3 == 2 || ctl0_after & 0x300 != 0 {
        assert(whole =~= looked + reset + last);
    } else {
        assert(whole =~= looked + Seq::<Step>::empty() + last);
    }
}

/// What an error means: the first of bits 8 to 11 that is set tells a misplaced START or STOP, a
/// lost arbitration, a missing acknowledge (of the address where START or the address was waited
/// for, else of a byte) or lost data; none of them, that the wait was spent.
pub proof fn law_errors_by_their_flags(s: u32, flag: u32)
    ensures
        i2c::fault(s, flag) == (if s & 0x100 != 0 {
            I2cError::Bus
        } else if s & 0x200 != 0 {
            I2cError::ArbitrationLoss
        } else if s & 0x400 != 0 && (flag == 1 || flag == 2) {
            I2cError::NoAcknowledgeAddress
        } else if s & 0x400 != 0 {
            I2cError::NoAcknowledgeData
        } else if s & 0x800 != 0 {
            I2cError::Overrun
        } else {
            I2cError::Timeout
        }),
{
}

proof fn guarded_starts<B: Bus>(
    dev: I2c,
    b0: B,
    b1: B,
    fresh: bool,
    script: Seq<Step>,
    r: Result<(), I2cError>,
    k: int,
)
    requires
        dev.guarded(b0, b1, fresh, script, r, k),
        script.len() > 0,
        script[0] == sets(dev.at(), 0x400),
    ensures
        b1.log().len() > b0.log().len(),
        b1.log()[b0.log().len() as int] matches Access::Load { addr, .. } && addr == reg::at(
            dev.at(),
            if fresh {
                0x18
            } else {
                0
            },
        ),
{
    if fresh && r is Err && k == -1 && dev.idled(b0, b1, r) {
        idled_looks(dev, b0, b1, r);
    } else {
        let (m1, m2) = choose|m1: B, m2: B|
            {
                &&& if fresh {
                    dev.idled(b0, m1, Ok::<(), I2cError>(()))
                } else {
                    m1 == b0
                }
                &&& #[trigger] i2c::transfer(m1, m2, script, r, k)
                &&& if r is Ok {
                    b1 == m2
                } else {
                    i2c::recovered(m2, b1, dev.at(), dev.tuning())
                }
            };
        transfer_starts(m1, m2, script, r, k, dev.at());
        if r is Err {
            let (s, m, b, c) = choose|s: u32, m: u32, b: u32, c: u32|
                reg::ran(
                    m2,
                    b1,
                    #[trigger] i2c::recover_script(dev.at(), dev.tuning(), s, m, b, c),
                );
            reg::steady_trans(m1, m2, b1);
        }
        let n0 = b0.log().len() as int;
        let n1 = m1.log().len() as int;
        if fresh {
            idled_looks(dev, b0, m1, Ok::<(), I2cError>(()));
            assert(b1.log().take(n1) == m1.log());
            assert(b1.log()[n0] == b1.log().take(n1)[n0]);
        } else {
            let n2 = m2.log().len() as int;
            if r is Err {
                assert(b1.log().take(n2) == m2.log());
                assert(b1.log()[n0] == b1.log().take(n2)[n0]);
            }
        }
    }
}

/// A fresh write looks at the busy flag (bit 1 of the second status register) before anything
/// else; one that is not fresh goes straight to the control register.
pub proof fn law_fresh_writes_wait<B: Bus>(
    dev: I2c,
    b0: B,
    b1: B,
    addr7: u8,
    bytes: Seq<u8>,
    fresh: bool,
    stop: bool,
    r: Result<(), I2cError>,
)
    requires
        dev.wrote(b0, b1, addr7, bytes, fresh, stop, r),
    ensures
        b1.log().len() > b0.log().len(),
        b1.log()[b0.log().len() as int] matches Access::Load { addr, .. } && addr == reg::at(
            dev.at(),
            if fresh {
                0x18
            } else {
                0
            },
        ),
{
    let script = i2c::write_script(dev.at(), addr7, bytes, stop);
    let k = choose|k: int| #[trigger] dev.guarded(b0, b1, fresh, script, r, k);
    law_write_protocol(dev.at(), addr7, bytes, stop);
    guarded_starts(dev, b0, b1, fresh, script, r, k);
}

/// A fresh read looks at the busy flag before anything else; one that is not fresh goes straight to
/// the control register.
pub proof fn law_fresh_reads_wait<B: Bus>(
    dev: I2c,
    b0: B,
    b1: B,
    addr7: u8,
    buf0: Seq<u8>,
    buf1: Seq<u8>,
    fresh: bool,
    r: Result<(), I2cError>,
)
    requires
        buf0.len() > 0,
        dev.took(b0, b1, addr7, buf0, buf1, fresh, r),
    ensures
        b1.log().len() > b0.log().len(),
        b1.log()[b0.log().len() as int] matches Access::Load { addr, .. } && addr == reg::at(
            dev.at(),
            if fresh {
                0x18
            } else {
                0
            },
        ),
{
    let (data, k) = choose|data: Seq<u32>, k: int|
        #[trigger] dev.took_with(b0, b1, addr7, buf0, buf1, fresh, r, data, k);
    guarded_starts(dev, b0, b1, fresh, i2c::read_script(dev.at(), addr7, data), r, k);
}

proof fn first_access(l0: Seq<Access>, l1: Seq<Access>, script: Seq<Step>)
    requires
        script.len() > 0,
        reg::performs(l0, l1, script),
        script[0] is Modify || script[0] is Await,
    ensures
        l1.len() > l0.len(),
        l1[l0.len() as int] matches Access::Load { addr, .. } && addr == match script[0] {
            Step::Modify { addr, .. } => addr,
            Step::Await { addr, .. } => addr,
            _ => 0,
        },
    decreases script.len(),
{
    let rest = script.drop_last();
    assert(script =~= rest.push(script.last()));
    let mid = reg::last_step(l0, l1, rest, script.last());
    if rest.len() > 0 {
        first_access(l0, mid, rest);
        reg::takes_longer(mid, l1, script.last());
        assert(l1[l0.len() as int] == l1.take(mid.len() as int)[l0.len() as int]);
    } else {
        assert(mid == l0);
        match script[0] {
            Step::Modify { addr, mask, bits } => {
                let v = choose|v: u32| #[trigger] reg::rewrites(l0, l1, addr, mask, bits, v);
            },
            Step::Await { addr, want, abort, limit } => {
                if l1.len() > l0.len() + 1 {
                    assert(l1.drop_last()[l0.len() as int] == l1[l0.len() as int]);
                }
            },
            _ => {},
        }
    }
}

proof fn transfer_starts<B: Bus>(
    b0: B,
    b1: B,
    script: Seq<Step>,
    r: Result<(), I2cError>,
    k: int,
    base: u32,
)
    requires
        i2c::transfer(b0, b1, script, r, k),
        script.len() > 0,
        script[0] == sets(base, 0x400),
    ensures
        reg::steady(b0, b1),
        b1.log().len() > b0.log().len(),
        b1.log()[b0.log().len() as int] matches Access::Load { addr, .. } && addr == reg::at(base, 0),
{
    let n = b0.log().len() as int;
    match r {
        Ok(_) => {
            first_access(b0.log(), b1.log(), script);
        },
        Err(_) => {
            let m = choose|m: B|
                reg::ran(b0, m, script.take(k)) && #[trigger] reg::stuck(m, b1, script[k]);
            assert(k > 0);
            assert(script.take(k)[0] == script[0]);
            first_access(b0.log(), m.log(), script.take(k));
            reg::steady_trans(b0, m, b1);
            assert(b1.log().take(m.log().len() as int)[n] == b1.log()[n]);
        },
    }
}

proof fn idled_looks<B: Bus>(dev: I2c, b0: B, b1: B, r: Result<(), I2cError>)
    requires
        dev.idled(b0, b1, r),
    ensures
        reg::steady(b0, b1),
        b1.log().len() > b0.log().len(),
        b1.log()[b0.log().len() as int] matches Access::Load { addr, .. } && addr == reg::at(
            dev.at(),
            0x18,
        ),
{
    let idle = i2c::idle_step(dev.at());
    let n = b0.log().len() as int;
    if r is Ok && reg::ran(b0, b1, seq![idle]) {
        assert(seq![idle][0] == idle);
        first_access(b0.log(), b1.log(), seq![idle]);
    } else {
        let (m1, m2) = choose|m1: B, m2: B|
            {
                let v = reg::last_load(b1.log());
                &&& #[trigger] reg::stuck(b0, m1, idle)
                &&& #[trigger] i2c::recovered(m1, m2, dev.at(), dev.tuning())
                &&& reg::ran(
                    m2,
                    b1,
                    seq![Step::Load { addr: reg::at(dev.at(), i2c::STAT1), value: v }],
                )
                &&& r == (if v & i2c::STAT1_I2CBSY == 0 {
                    Ok::<(), I2cError>(())
                } else {
                    Err(I2cError::Bus)
                })
            };
        let (s, m, b, c) = choose|s: u32, m: u32, b: u32, c: u32|
            reg::ran(m1, m2, #[trigger] i2c::recover_script(dev.at(), dev.tuning(), s, m, b, c));
        reg::steady_trans(b0, m1, m2);
        reg::steady_trans(b0, m2, b1);
        reg::steady_trans(m1, m2, b1);
        let l = m1.log();
        if l.len() > n + 1 {
            assert(l.drop_last()[n] == l[n]);
        }
        assert(b1.log().take(l.len() as int)[n] == b1.log()[n]);
    }
}

/// The bus is idle, for a fresh transfer, when bit 1 of the second status register is clear; after
/// 10,000 looks that found it set, the block is recovered and looked at once more, and only then is
/// the bus given up.
pub proof fn law_idle_wait<B: Bus>(dev: I2c, b0: B, b1: B, r: Result<(), I2cError>)
    requires
        dev.idled(b0, b1, r),
    ensures
        b1.log().last() matches Access::Load { addr, value } && addr == reg::at(dev.at(), 0x18) && (
        value & 2 == 0) == (r is Ok),
        r is Err ==> r == Err::<(), _>(I2cError::Bus),
        r is Err ==> b1.log().len() > b0.log().len() + 10_000,
{
    let idle = i2c::idle_step(dev.at());
    if r is Ok && reg::ran(b0, b1, seq![idle]) {
        assert(seq![idle] =~= Seq::<Step>::empty().push(idle));
        let z = reg::last_step(b0.log(), b1.log(), Seq::<Step>::empty(), idle);
    } else {
        let (m1, m2) = choose|m1: B, m2: B|
            {
                let v = reg::last_load(b1.log());
                &&& #[trigger] reg::stuck(b0, m1, idle)
                &&& #[trigger] i2c::recovered(m1, m2, dev.at(), dev.tuning())
                &&& reg::ran(
                    m2,
                    b1,
                    seq![Step::Load { addr: reg::at(dev.at(), i2c::STAT1), value: v }],
                )
                &&& r == (if v & i2c::STAT1_I2CBSY == 0 {
                    Ok::<(), I2cError>(())
                } else {
                    Err(I2cError::Bus)
                })
            };
        let look = Step::Load {
            addr: reg::at(dev.at(), i2c::STAT1),
            value: reg::last_load(b1.log()),
        };
        assert(seq![look] =~= Seq::<Step>::empty().push(look));
        let z = reg::last_step(m2.log(), b1.log(), Seq::<Step>::empty(), look);
        let (s, m, b, c) = choose|s: u32, m: u32, b: u32, c: u32|
            reg::ran(m1, m2, #[trigger] i2c::recover_script(dev.at(), dev.tuning(), s, m, b, c));
        crate::bits::no_bits(reg::last_load(m1.log()));
    }
}

proof fn guarded_recovers<B: Bus>(
    dev: I2c,
    b0: B,
    b1: B,
    fresh: bool,
    script: Seq<Step>,
    e: I2cError,
    k: int,
)
    requires
        dev.guarded(b0, b1, fresh, script, Err::<(), _>(e), k),
    ensures
        match b1.log().last() {
            Access::Store { addr, value } => addr == reg::at(dev.at(), 0) && value & 0x400 != 0,
            Access::Load { addr, value } => fresh && e is Bus && addr == reg::at(dev.at(), 0x18)
                && value & 2 != 0,
            _ => false,
        },
{
    let r = Err::<(), _>(e);
    if fresh && k == -1 && dev.idled(b0, b1, r) {
        law_idle_wait(dev, b0, b1, r);
    } else {
        let (m1, m2) = choose|m1: B, m2: B|
            {
                &&& if fresh {
                    dev.idled(b0, m1, Ok::<(), I2cError>(()))
                } else {
                    m1 == b0
                }
                &&& #[trigger] i2c::transfer(m1, m2, script, r, k)
                &&& if r is Ok {
                    b1 == m2
                } else {
                    i2c::recovered(m2, b1, dev.at(), dev.tuning())
                }
            };
        let (s, m, b, c) = choose|s: u32, m: u32, b: u32, c: u32|
            reg::ran(m2, b1, #[trigger] i2c::recover_script(dev.at(), dev.tuning(), s, m, b, c));
        let whole = i2c::recover_script(dev.at(), dev.tuning(), s, m, b, c);
        law_recovery_protocol(dev.at(), dev.tuning(), s, m, b, c);
        let ack = sets(dev.at(), 0x400);
        assert(whole.last() == ack);
        assert(whole =~= whole.drop_last().push(ack));
        let z = reg::last_step(m2.log(), b1.log(), whole.drop_last(), ack);
        let v = choose|v: u32|
            #[trigger] reg::rewrites(z, b1.log(), reg::at(dev.at(), 0), 0x400, 0x400, v);
        crate::bits::one_bit(v, 10);
        crate::bits::small_fields(0, 0, 0);
    }
}

/// A failed write is recovered from: the last thing done is switching the acknowledge on. The
/// exception is a bus that stays busy, which is looked at last.
pub proof fn law_failed_writes_are_recovered_from<B: Bus>(
    dev: I2c,
    b0: B,
    b1: B,
    addr7: u8,
    bytes: Seq<u8>,
    fresh: bool,
    stop: bool,
    e: I2cError,
)
    requires
        dev.wrote(b0, b1, addr7, bytes, fresh, stop, Err::<(), _>(e)),
    ensures
        match b1.log().last() {
            Access::Store { addr, value } => addr == reg::at(dev.at(), 0) && value & 0x400 != 0,
            Access::Load { addr, value } => fresh && e is Bus && addr == reg::at(dev.at(), 0x18)
                && value & 2 != 0,
            _ => false,
        },
{
    let script = i2c::write_script(dev.at(), addr7, bytes, stop);
    let k = choose|k: int|
        #[trigger] dev.guarded(b0, b1, fresh, script, Err::<(), _>(e), k);
    guarded_recovers(dev, b0, b1, fresh, script, e, k);
}

/// A failed read is recovered from as a failed write is.
pub proof fn law_failed_reads_are_recovered_from<B: Bus>(
    dev: I2c,
    b0: B,
    b1: B,
    addr7: u8,
    buf0: Seq<u8>,
    buf1: Seq<u8>,
    fresh: bool,
    e: I2cError,
)
    requires
        dev.took(b0, b1, addr7, buf0, buf1, fresh, Err::<(), _>(e)),
    ensures
        match b1.log().last() {
            Access::Store { addr, value } => addr == reg::at(dev.at(), 0) && value & 0x400 != 0,
            Access::Load { addr, value } => fresh && e is Bus && addr == reg::at(dev.at(), 0x18)
                && value & 2 != 0,
            _ => false,
        },
{
    let (data, k) = choose|data: Seq<u32>, k: int|
        #[trigger] dev.took_with(b0, b1, addr7, buf0, buf1, fresh, Err::<(), _>(e), data, k);
    let script = i2c::read_script(dev.at(), addr7, data);
    guarded_recovers(dev, b0, b1, fresh, script, e, k);
}

/// A transfer that fails on the wire fails for what the status last showed: some load of the first
/// status register has the flag of the error, or the wait was spent with none set.
pub proof fn law_errors_come_from_the_status<B: Bus>(
    b0: B,
    b1: B,
    script: Seq<Step>,
    e: I2cError,
    k: int,
    base: u32,
)
    requires
        i2c::transfer(b0, b1, script, Err::<(), _>(e), k),
        script[k] matches Step::Await { addr, .. } ==> addr == reg::at(base, 0x14),
    ensures
        b1.log().last() matches Access::Load { addr, value } && addr == reg::at(base, 0x14) && match e {
            I2cError::Bus => value & 0x100 != 0,
            I2cError::ArbitrationLoss => value & 0x200 != 0 && value & 0x100 == 0,
            I2cError::NoAcknowledgeAddress => value & 0x400 != 0 && value & 0x100 == 0 && value
                & 0x200 == 0,
            I2cError::NoAcknowledgeData => value & 0x400 != 0 && value & 0x100 == 0 && value & 0x200
                == 0,
            I2cError::Overrun => value & 0x800 != 0 && value & 0x400 == 0,
            I2cError::Timeout => value & 0x100 == 0 && value & 0x200 == 0 && value & 0x400 == 0
                && value & 0x800 == 0,
            I2cError::Other => false,
        },
{
    let m = choose|m: B|
        reg::ran(b0, m, script.take(k)) && #[trigger] reg::stuck(m, b1, script[k]);
}

/// Up to 100 kHz the divider is the bus clock over twice the frequency, rounded down, but at least
/// four; the clock field is the bus clock in MHz between 2 and 72, and the rise time one more than
/// that in MHz, between the same bounds.
pub proof fn law_standard_timing(pclk1_hz: u32, speed_hz: u32, duty: FastDuty)
    requires
        0 < speed_hz <= 100_000,
        pclk1_hz < 8192 * speed_hz,
    ensures
        ({
            let t = i2c::timing(pclk1_hz, speed_hz, duty);
            let d = t.ckcfg as int;
            &&& 4 <= d < 4096
            &&& d > 4 ==> 2 * d * speed_hz <= pclk1_hz
            &&& pclk1_hz < 2 * (d + 1) * speed_hz
            &&& 2 <= t.i2cclk <= 72
            &&& 2 <= t.rt <= 72
            &&& 2_000_000 <= pclk1_hz < 73_000_000 ==> 1_000_000 * t.i2cclk <= pclk1_hz
                < 1_000_000 * (t.i2cclk + 1)
            &&& pclk1_hz < 2_000_000 ==> t.i2cclk == 2
            &&& pclk1_hz >= 72_000_000 ==> t.i2cclk == 72 && t.rt == 72
            &&& 1_000_000 <= pclk1_hz < 72_000_000 ==> 1_000_000 * (t.rt - 1) <= pclk1_hz < 1_000_000
                * t.rt
            &&& pclk1_hz < 1_000_000 ==> t.rt == 2
        }),
{
    let d = pclk1_hz as int / (2 * speed_hz) as int;
    vstd::arithmetic::div_mod::lemma_fundamental_div_mod(pclk1_hz as int, 2 * speed_hz);
    let m = 2 * speed_hz as int;
    let rest = pclk1_hz as int % m;
    assert(m * d == 2 * d * speed_hz && 2 * (d + 1) * speed_hz == m * d + m) by (nonlinear_arith)
        requires
            m == 2 * speed_hz,
    ;
    assert(d < 4096) by (nonlinear_arith)
        requires
            m * d <= pclk1_hz,
            pclk1_hz < 4096 * m,
            m > 0,
    ;
    if d < 4 {
        assert(2 * (d + 1) * speed_hz <= 2 * (4 + 1) * speed_hz) by (nonlinear_arith)
            requires
                d < 4,
                speed_hz > 0,
        ;
    }
    let c = if d < 4 {
        4u32
    } else {
        d as u32
    };
    crate::bits::divider(c, 0);
}

/// Above 100 kHz the divider is the bus clock over three times the frequency, or twenty-five times
/// it at the 16/9 duty (marked by bit 14), rounded down but not zero; bit 15 marks fast mode. The
/// rise time is three tenths of the clock field and one more.
pub proof fn law_fast_timing(pclk1_hz: u32, speed_hz: u32, duty: FastDuty)
    requires
        speed_hz > 100_000,
        i2c::speed_in_range(speed_hz, duty),
        pclk1_hz < 4096 * speed_hz,
    ensures
        ({
            let t = i2c::timing(pclk1_hz, speed_hz, duty);
            let (k, mark) = if duty is SixteenNine {
                (25int, 0x8000 + 0x4000int)
            } else {
                (3int, 0x8000int)
            };
            let d = t.ckcfg - mark;
            &&& 1 <= d < 4096
            &&& d > 1 ==> k * d * speed_hz <= pclk1_hz
            &&& pclk1_hz < k * (d + 1) * speed_hz
            &&& 2 <= t.i2cclk <= 72
            &&& 10 * (t.rt - 1) <= 3 * t.i2cclk < 10 * t.rt
            &&& 2_000_000 <= pclk1_hz < 73_000_000 ==> 1_000_000 * t.i2cclk <= pclk1_hz
                < 1_000_000 * (t.i2cclk + 1)
            &&& pclk1_hz < 2_000_000 ==> t.i2cclk == 2
            &&& pclk1_hz >= 72_000_000 ==> t.i2cclk == 72
        }),
{
    let k: int = if duty is SixteenNine {
        25
    } else {
        3
    };
    let m = k * speed_hz as int;
    let d = pclk1_hz as int / m;
    vstd::arithmetic::div_mod::lemma_fundamental_div_mod(pclk1_hz as int, m);
    let rest = pclk1_hz as int % m;
    assert(k * d * speed_hz == m * d && k * (d + 1) * speed_hz == m * d + m) by (nonlinear_arith)
        requires
            m == k * speed_hz,
    ;
    assert(0 <= d < 4096) by (nonlinear_arith)
        requires
            m * d <= pclk1_hz,
            m * d + m > pclk1_hz,
            pclk1_hz < 4096 * m,
            pclk1_hz >= 0,
            m > 0,
    ;
    let mark: u32 = if duty is SixteenNine {
        0x4000
    } else {
        0
    };
    let c = d as u32;
    crate::bits::divider(c, mark);
    crate::bits::divider(1, mark);
    if d == 0 {
        assert(k * (1 + 1) * speed_hz == 2 * m) by (nonlinear_arith)
            requires
                m == k * speed_hz,
        ;
    }
}

/// What becomes of a divider that does not fit its twelve bits: up to 100 kHz it is cut to them;
/// above, the bits beyond them stay in the word, and only where all twelve are clear the lowest is
/// set.
pub proof fn law_wide_dividers(pclk1_hz: u32, speed_hz: u32, duty: FastDuty)
    requires
        i2c::speed_in_range(speed_hz, duty),
    ensures
        ({
            let t = i2c::timing(pclk1_hz, speed_hz, duty);
            let k: int = if speed_hz <= 100_000 {
                2
            } else if duty is SixteenNine {
                25
            } else {
                3
            };
            let d = pclk1_hz as int / (k * speed_hz);
            &&& speed_hz <= 100_000 ==> t.ckcfg == (if d < 4 {
                4
            } else {
                d
            }) % 4096
            &&& speed_hz > 100_000 ==> t.ckcfg & 0xFFF == (if d % 4096 == 0 {
                1
            } else {
                d % 4096
            })
            &&& speed_hz > 100_000 ==> t.ckcfg & 0x8000 == 0x8000
            &&& speed_hz > 100_000 && duty is Two ==> t.ckcfg & 0x4000 == (d as u32) & 0x4000
            &&& speed_hz > 100_000 && duty is SixteenNine ==> t.ckcfg & 0x4000 == 0x4000u32 | ((
            d as u32) & 0x4000)
            &&& speed_hz > 100_000 ==> t.ckcfg >> 16u32 == (d as u32) >> 16u32
        }),
{
    let k: int = if speed_hz <= 100_000 {
        2
    } else if duty is SixteenNine {
        25
    } else {
        3
    };
    let m = k * speed_hz;
    let d = pclk1_hz as int / m;
    vstd::arithmetic::div_mod::lemma_div_pos_is_pos(pclk1_hz as int, m);
    vstd::arithmetic::div_mod::lemma_div_is_ordered_by_denominator(pclk1_hz as int, 1, m);
    assert(0 <= d <= pclk1_hz);
    let c = d as u32;
    let mark: u32 = if duty is SixteenNine {
        0x4000
    } else {
        0
    };
    crate::bits::divider(c, mark);
    crate::bits::divider(c | 1, mark);
    crate::bits::divider(4, mark);
    crate::bits::no_bits(c & 0x4000);
}

/// The clock that feeds the blocks is the system clock, divided for AHB and again for APB1; a
/// divisor of zero counts as one.
pub proof fn law_input_clock(clock: ClockConfig)
    ensures
        ({
            let ahb: int = if clock.ahb_psc == 0 {
                1
            } else {
                clock.ahb_psc as int
            };
            let apb1: int = if clock.apb1_psc == 0 {
                1
            } else {
                clock.apb1_psc as int
            };
            let f = i2c::apb1_hz(clock) as int;
            f * (ahb * apb1) <= clock.sysclk_hz < (f + 1) * (ahb * apb1)
        }),
{
    let ahb: int = if clock.ahb_psc == 0 {
        1
    } else {
        clock.ahb_psc as int
    };
    let apb1: int = if clock.apb1_psc == 0 {
        1
    } else {
        clock.apb1_psc as int
    };
    let x = clock.sysclk_hz as int;
    vstd::arithmetic::div_mod::lemma_div_denominator(x, ahb, apb1);
    assert(ahb * apb1 > 0) by (nonlinear_arith)
        requires
            ahb > 0,
            apb1 > 0,
    ;
    vstd::arithmetic::div_mod::lemma_fundamental_div_mod(x, ahb * apb1);
    let f = x / (ahb * apb1);
    let p = ahb * apb1;
    assert(p * f == f * p && (f + 1) * p == p * f + p) by (nonlinear_arith);
}

} // verus!
