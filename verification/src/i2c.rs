//! The I2C master.
//!
//! Both families carry the same event-driven block, so there is one driver. Every wait is bounded.
//! A failed transfer puts the block back into a usable state before its error is returned.
//!
//! Receiving makes every decision while the block stretches the clock, so a late interrupt cannot
//! misplace the last acknowledge or the STOP: a single byte is read after STOP is requested; two
//! bytes are both held before STOP; of more, the last three are taken with the block stopped at
//! each step.

use vstd::prelude::*;

use crate::addr::{self, PeriphLabel};
use crate::chip::Chip;
use crate::clock::{self, ClockConfig};
use crate::error::{DescriptorError, I2cError};
use crate::gpio::{self, Pin, PinRole};
use crate::reg::{self, Bus, Reg32, Step, Want};

pub mod bus_clear;
pub mod laws;
pub mod protocol;
pub mod wire;

verus! {

pub const CTL0: u32 = 0x00;

pub const CTL1: u32 = 0x04;

pub const SADDR0: u32 = 0x08;

pub const DATA: u32 = 0x10;

pub const STAT0: u32 = 0x14;

pub const STAT1: u32 = 0x18;

pub const CKCFG: u32 = 0x1C;

pub const RT: u32 = 0x20;

/// `CTL0`: block on (bit 0).
pub const CTL0_I2CEN: u32 = 0x1;

/// `CTL0`: SMBus mode (bit 1).
pub const CTL0_SMBEN: u32 = 0x2;

/// `CTL0`: START requested (bit 8).
pub const CTL0_START: u32 = 0x100;

/// `CTL0`: STOP requested (bit 9).
pub const CTL0_STOP: u32 = 0x200;

/// `CTL0`: acknowledge received bytes (bit 10).
pub const CTL0_ACKEN: u32 = 0x400;

/// `CTL0`: the acknowledge bit governs the next byte, not the current one (bit 11).
pub const CTL0_POAP: u32 = 0x800;

/// `CTL0`: software reset (bit 15).
pub const CTL0_SRESET: u32 = 0x8000;

/// `CTL1`: the bus clock in MHz (bits 0 to 6).
pub const CTL1_I2CCLK: u32 = 0x7F;

/// `CKCFG`: clock divider (bits 0 to 11).
pub const CKCFG_CLKC: u32 = 0xFFF;

/// `CKCFG`: 16/9 duty (bit 14).
pub const CKCFG_DTCY: u32 = 0x4000;

/// `CKCFG`: fast mode (bit 15).
pub const CKCFG_FAST: u32 = 0x8000;

/// `STAT0`: START sent (bit 0).
pub const STAT0_SBSEND: u32 = 0x1;

/// `STAT0`: address acknowledged (bit 1).
pub const STAT0_ADDSEND: u32 = 0x2;

/// `STAT0`: byte transfer complete (bit 2).
pub const STAT0_BTC: u32 = 0x4;

/// `STAT0`: a byte to read (bit 6).
pub const STAT0_RBNE: u32 = 0x40;

/// `STAT0`: room for a byte (bit 7).
pub const STAT0_TBE: u32 = 0x80;

/// `STAT0`: bus error (bit 8).
pub const STAT0_BERR: u32 = 0x100;

/// `STAT0`: arbitration lost (bit 9).
pub const STAT0_LOSTARB: u32 = 0x200;

/// `STAT0`: acknowledge missing (bit 10).
pub const STAT0_AERR: u32 = 0x400;

/// `STAT0`: overrun (bit 11).
pub const STAT0_OUERR: u32 = 0x800;

/// `STAT0`: the error flags, which stay set until software clears them.
pub const STAT0_ERRORS: u32 = 0xF00;

/// `STAT1`: the block is master (bit 0).
pub const STAT1_MASTER: u32 = 0x1;

/// `STAT1`: the bus is busy (bit 1).
pub const STAT1_I2CBSY: u32 = 0x2;

/// The highest bus clock field, in MHz.
pub const I2CCLK_MAX: u32 = 0x48;

/// The lowest bus clock field, in MHz; the rise-time field is no lower either in standard mode.
pub const I2CCLK_MIN: u32 = 0x02;

/// Polls of one status flag before a transfer gives up.
pub const I2C_TIMEOUT: u32 = 100_000;

/// Polls of the busy flag before a fresh transfer gives up.
pub const BUSY_TIMEOUT: u32 = 10_000;

/// The own-address register value.
pub const MASTER_OWN_ADDR: u8 = 0x24;

// --- timing -----------------------------------------------------------------------------------

/// The duty cycle of fast mode.
#[derive(Debug, Clone, Copy, PartialEq, Eq, Structural)]
pub enum FastDuty {
    /// Low twice as long as high.
    Two,
    /// Low to high as 16 to 9.
    SixteenNine,
}

impl Default for FastDuty {
    fn default() -> (r: Self)
        ensures
            r == FastDuty::Two,
    {
        FastDuty::Two
    }
}

/// The bus mode: the clock frequency, and the duty in fast mode.
#[derive(Debug, Clone, Copy, PartialEq, Eq, Structural)]
pub struct I2cMode {
    /// The clock frequency in Hz.
    pub speed_hz: u32,
    /// The duty; not looked at up to 100 kHz.
    pub duty: FastDuty,
}

impl I2cMode {
    /// Standard mode.
    pub fn standard(speed_hz: u32) -> (r: Self)
        ensures
            r == (I2cMode { speed_hz, duty: FastDuty::Two }),
    {
        Self { speed_hz, duty: FastDuty::Two }
    }

    /// Fast mode.
    pub fn fast(speed_hz: u32, duty: FastDuty) -> (r: Self)
        ensures
            r == (I2cMode { speed_hz, duty }),
    {
        Self { speed_hz, duty }
    }
}

/// The three timing fields.
#[derive(Debug, Clone, Copy, PartialEq, Eq, Structural)]
pub struct I2cTiming {
    /// The bus clock in MHz, for `CTL1`.
    pub i2cclk: u32,
    /// The value of `CKCFG`.
    pub ckcfg: u32,
    /// The value of `RT`.
    pub rt: u32,
}

/// A frequency the divider arithmetic can take: not zero, and no wrap when it is scaled by the
/// duty's period.
pub open spec fn speed_in_range(speed_hz: u32, duty: FastDuty) -> bool {
    &&& 0 < speed_hz
    &&& match duty {
        FastDuty::Two => speed_hz * 3 <= u32::MAX,
        FastDuty::SixteenNine => speed_hz * 25 <= u32::MAX,
    } || speed_hz <= 100_000
}

/// The timing for a bus clock and a frequency.
///
/// The clock field is the bus clock in MHz, no lower than [`I2CCLK_MIN`] and no higher than
/// [`I2CCLK_MAX`]. Up to 100 kHz the divider halves the period and is at least 4. Above, it is the
/// bus clock over the frequency times 3 or 25, by the duty, and its field is never zero.
pub open spec fn timing(pclk1_hz: u32, speed_hz: u32, duty: FastDuty) -> I2cTiming {
    let mhz = pclk1_hz / 1_000_000;
    let i2cclk = if mhz > I2CCLK_MAX {
        I2CCLK_MAX
    } else if mhz < I2CCLK_MIN {
        I2CCLK_MIN
    } else {
        mhz
    };
    if speed_hz <= 100_000 {
        let clkc = pclk1_hz / ((speed_hz * 2) as u32);
        I2cTiming {
            i2cclk,
            ckcfg: (if clkc < 4 {
                4
            } else {
                clkc
            }) & CKCFG_CLKC,
            rt: if mhz + 1 > I2CCLK_MAX {
                I2CCLK_MAX
            } else if mhz + 1 < I2CCLK_MIN {
                I2CCLK_MIN
            } else {
                (mhz + 1) as u32
            },
        }
    } else {
        let clkc = match duty {
            FastDuty::Two => pclk1_hz / ((speed_hz * 3) as u32),
            FastDuty::SixteenNine => pclk1_hz / ((speed_hz * 25) as u32),
        };
        let field = if clkc & CKCFG_CLKC == 0 {
            clkc | 1
        } else {
            clkc
        };
        I2cTiming {
            i2cclk,
            ckcfg: CKCFG_FAST | (match duty {
                FastDuty::Two => 0,
                FastDuty::SixteenNine => CKCFG_DTCY,
            }) | field,
            rt: (i2cclk * 300 / 1000 + 1) as u32,
        }
    }
}

/// The timing for a bus clock and a frequency.
pub fn timing_for(pclk1_hz: u32, speed_hz: u32, duty: FastDuty) -> (r: I2cTiming)
    requires
        speed_in_range(speed_hz, duty),
    ensures
        r == timing(pclk1_hz, speed_hz, duty),
{
    let mhz: u32 = pclk1_hz / 1_000_000;
    let i2cclk: u32 = if mhz > I2CCLK_MAX {
        I2CCLK_MAX
    } else if mhz < I2CCLK_MIN {
        I2CCLK_MIN
    } else {
        mhz
    };
    if speed_hz <= 100_000 {
        let risetime: u32 = mhz + 1;
        let rt: u32 = if risetime > I2CCLK_MAX {
            I2CCLK_MAX
        } else if risetime < I2CCLK_MIN {
            I2CCLK_MIN
        } else {
            risetime
        };
        let mut clkc: u32 = pclk1_hz / (speed_hz * 2);
        if clkc < 4 {
            clkc = 4;
        }
        I2cTiming { i2cclk, ckcfg: clkc & CKCFG_CLKC, rt }
    } else {
        let rt: u32 = (i2cclk * 300) / 1000 + 1;
        let (mut clkc, dtcy): (u32, u32) = match duty {
            FastDuty::Two => (pclk1_hz / (speed_hz * 3), 0),
            FastDuty::SixteenNine => (pclk1_hz / (speed_hz * 25), CKCFG_DTCY),
        };
        if clkc & CKCFG_CLKC == 0 {
            clkc = clkc | 1;
        }
        I2cTiming { i2cclk, ckcfg: CKCFG_FAST | dtcy | clkc, rt }
    }
}

/// The APB1 clock of a tree, which feeds the I2C blocks. A prescaler of 0 counts as 1.
pub open spec fn apb1_hz(clock: ClockConfig) -> u32 {
    let ahb = clock.sysclk_hz / (if clock.ahb_psc == 0 {
        1u32
    } else {
        clock.ahb_psc as u32
    });
    ahb / (if clock.apb1_psc == 0 {
        1u32
    } else {
        clock.apb1_psc as u32
    })
}

/// The APB1 clock of a tree.
pub fn i2c_input_clock(clock: &ClockConfig) -> (r: u32)
    ensures
        r == apb1_hz(*clock),
{
    let ahb_psc: u32 = if clock.ahb_psc == 0 {
        1
    } else {
        clock.ahb_psc as u32
    };
    let apb1_psc: u32 = if clock.apb1_psc == 0 {
        1
    } else {
        clock.apb1_psc as u32
    };
    (clock.sysclk_hz / ahb_psc) / apb1_psc
}

// --- what goes over the bus -------------------------------------------------------------------

/// Setting or clearing a bit of `CTL0`.
pub open spec fn ctl0_step(base: u32, mask: u32, on: bool) -> Step {
    Step::Modify {
        addr: reg::at(base, CTL0),
        mask,
        bits: if on {
            mask
        } else {
            0
        },
    }
}

/// Waiting for a flag of `STAT0`; an error flag breaks the wait off.
pub open spec fn flag_step(base: u32, flag: u32) -> Step {
    Step::Await {
        addr: reg::at(base, STAT0),
        want: Want::High { mask: flag },
        abort: STAT0_ERRORS,
        limit: I2C_TIMEOUT as u64,
    }
}

/// Putting a byte into the data register.
pub open spec fn put_step(base: u32, byte: u32) -> Step {
    Step::Store { addr: reg::at(base, DATA), value: byte }
}

/// Taking `value` from the data register.
pub open spec fn get_step(base: u32, value: u32) -> Step {
    Step::Load { addr: reg::at(base, DATA), value }
}

/// The address byte: seven address bits and the direction.
pub open spec fn address_byte(addr7: u8, read: bool) -> u32 {
    ((addr7 as u32) << 1) | (if read {
        1u32
    } else {
        0
    })
}

/// Programming the timing registers.
pub open spec fn timing_script(base: u32, t: I2cTiming) -> Seq<Step> {
    Seq::empty().push(
        Step::Modify { addr: reg::at(base, CTL1), mask: CTL1_I2CCLK, bits: t.i2cclk },
    ).push(Step::Store { addr: reg::at(base, RT), value: t.rt }).push(
        Step::Store { addr: reg::at(base, CKCFG), value: t.ckcfg },
    )
}

/// Bringing the block up: timing, I2C mode and own address, block on, acknowledge on.
pub open spec fn init_script(base: u32, t: I2cTiming) -> Seq<Step> {
    timing_script(base, t).push(ctl0_step(base, CTL0_SMBEN, false)).push(
        Step::Store { addr: reg::at(base, SADDR0), value: MASTER_OWN_ADDR as u32 },
    ).push(ctl0_step(base, CTL0_I2CEN, true)).push(ctl0_step(base, CTL0_ACKEN, true))
}

/// Resetting the block, whose registers it clears, and bringing it up again.
pub open spec fn reinit_script(base: u32, t: I2cTiming) -> Seq<Step> {
    Seq::empty().push(Step::Store { addr: reg::at(base, CTL0), value: CTL0_SRESET }).push(
        Step::Store { addr: reg::at(base, CTL0), value: 0 },
    ) + init_script(base, t)
}

/// Waiting for the bus to go idle.
pub open spec fn idle_step(base: u32) -> Step {
    Step::Await {
        addr: reg::at(base, STAT1),
        want: Want::Low { mask: STAT1_I2CBSY },
        abort: 0,
        limit: BUSY_TIMEOUT as u64,
    }
}

/// The block is wedged: busy without being master, or with a START or STOP request that does not
/// go away.
pub open spec fn wedged(stat1: u32, ctl0: u32) -> bool {
    stat1 & 0x3 == STAT1_I2CBSY || ctl0 & 0x300 != 0
}

/// Clearing the error flags that read `stat0`, and a STOP if the block is master.
pub open spec fn release_script(base: u32, stat0: u32, stat1: u32) -> Seq<Step> {
    let cleared = Seq::empty().push(Step::Load { addr: reg::at(base, STAT0), value: stat0 }).push(
        Step::Store { addr: reg::at(base, STAT0), value: stat0 & !STAT0_ERRORS },
    ).push(Step::Load { addr: reg::at(base, STAT1), value: stat1 });
    if stat1 & STAT1_MASTER != 0 {
        cleared.push(ctl0_step(base, CTL0_STOP, true)).push(
            Step::Settle {
                addr: reg::at(base, CTL0),
                want: Want::Low { mask: CTL0_STOP },
                limit: BUSY_TIMEOUT as u64,
            },
        )
    } else {
        cleared
    }
}

/// Putting the block back into a usable state, given what the four status loads return: release
/// the bus, look whether the block is wedged, reset it if so, and restore the acknowledge posture.
pub open spec fn recover_script(
    base: u32,
    t: I2cTiming,
    stat0: u32,
    stat1: u32,
    stat1_after: u32,
    ctl0_after: u32,
) -> Seq<Step> {
    let looked = release_script(base, stat0, stat1).push(
        Step::Load { addr: reg::at(base, STAT1), value: stat1_after },
    ).push(Step::Load { addr: reg::at(base, CTL0), value: ctl0_after });
    let ready = if wedged(stat1_after, ctl0_after) {
        looked + reinit_script(base, t)
    } else {
        looked
    };
    ready.push(ctl0_step(base, CTL0_POAP, false)).push(ctl0_step(base, CTL0_ACKEN, true))
}

/// A recovery, whatever the status loads returned.
pub open spec fn recovered<B: Bus>(b0: B, b1: B, base: u32, t: I2cTiming) -> bool {
    exists|s: u32, m: u32, b: u32, c: u32|
        reg::ran(b0, b1, #[trigger] recover_script(base, t, s, m, b, c))
}

/// The error a status that met no wait stands for; `flag` is the flag that was waited for, which
/// tells a missing acknowledge of the address from one of a data byte.
pub open spec fn fault(stat0: u32, flag: u32) -> I2cError {
    if stat0 & STAT0_BERR != 0 {
        I2cError::Bus
    } else if stat0 & STAT0_LOSTARB != 0 {
        I2cError::ArbitrationLoss
    } else if stat0 & STAT0_AERR != 0 {
        if flag == STAT0_SBSEND || flag == STAT0_ADDSEND {
            I2cError::NoAcknowledgeAddress
        } else {
            I2cError::NoAcknowledgeData
        }
    } else if stat0 & STAT0_OUERR != 0 {
        I2cError::Overrun
    } else {
        I2cError::Timeout
    }
}

/// What a transfer comes to: the whole script, or the script broken off after `k` steps at a flag
/// that was not met, with the error the last status stands for.
pub open spec fn transfer<B: Bus>(
    b0: B,
    b1: B,
    script: Seq<Step>,
    r: Result<(), I2cError>,
    k: int,
) -> bool {
    match r {
        Ok(()) => k == script.len() && reg::ran(b0, b1, script),
        Err(e) => {
            &&& reg::broke(b0, b1, script, k)
            &&& script[k] matches Step::Await { want: Want::High { mask }, .. }
            &&& e == fault(reg::last_load(b1.log()), mask)
        },
    }
}

proof fn transfer_fails<B: Bus>(
    b0: B,
    bm: B,
    b1: B,
    done: Seq<Step>,
    base: u32,
    flag: u32,
    script: Seq<Step>,
)
    requires
        reg::ran(b0, bm, done),
        reg::stuck(bm, b1, flag_step(base, flag)),
        done.len() < script.len(),
        script.take(done.len() as int) == done,
        script[done.len() as int] == flag_step(base, flag),
    ensures
        transfer(
            b0,
            b1,
            script,
            Err::<(), I2cError>(fault(reg::last_load(b1.log()), flag)),
            done.len() as int,
        ),
{
    reg::broke_at(b0, bm, b1, script, done.len() as int);
}

proof fn transfer_after<B: Bus>(
    b0: B,
    b1: B,
    b2: B,
    s1: Seq<Step>,
    s2: Seq<Step>,
    r: Result<(), I2cError>,
    k: int,
)
    requires
        reg::ran(b0, b1, s1),
        transfer(b1, b2, s2, r, k),
    ensures
        transfer(b0, b2, s1 + s2, r, s1.len() + k),
{
    match r {
        Ok(()) => {
            reg::ran_append(b0, b1, b2, s1, s2);
        },
        Err(e) => {
            let m = choose|m: B| reg::ran(b1, m, s2.take(k)) && #[trigger] reg::stuck(m, b2, s2[k]);
            reg::ran_append(b0, b1, m, s1, s2.take(k));
            assert((s1 + s2).take(s1.len() + k) =~= s1 + s2.take(k));
            reg::broke_at(b0, m, b2, s1 + s2, s1.len() + k);
        },
    }
}

proof fn transfer_cut<B: Bus>(
    b0: B,
    b1: B,
    s1: Seq<Step>,
    s2: Seq<Step>,
    r: Result<(), I2cError>,
    k: int,
)
    requires
        r is Err,
        transfer(b0, b1, s1, r, k),
    ensures
        transfer(b0, b1, s1 + s2, r, k),
{
    let m = choose|m: B| reg::ran(b0, m, s1.take(k)) && #[trigger] reg::stuck(m, b1, s1[k]);
    assert((s1 + s2).take(k) =~= s1.take(k));
    reg::broke_at(b0, m, b1, s1 + s2, k);
}

// --- writing ----------------------------------------------------------------------------------

/// START and the address of a write.
pub open spec fn write_head(base: u32, addr7: u8) -> Seq<Step> {
    Seq::empty().push(ctl0_step(base, CTL0_ACKEN, true)).push(
        ctl0_step(base, CTL0_START, true),
    ).push(flag_step(base, STAT0_SBSEND)).push(put_step(base, address_byte(addr7, false))).push(
        flag_step(base, STAT0_ADDSEND),
    ).push(Step::Discard { addr: reg::at(base, STAT0) }).push(
        Step::Discard { addr: reg::at(base, STAT1) },
    )
}

/// The bytes of a write, each when there is room for it.
pub open spec fn bytes_script(base: u32, bytes: Seq<u8>) -> Seq<Step>
    decreases bytes.len(),
{
    if bytes.len() == 0 {
        Seq::empty()
    } else {
        bytes_script(base, bytes.drop_last()).push(flag_step(base, STAT0_TBE)).push(
            put_step(base, bytes.last() as u32),
        )
    }
}

/// The bytes of a write, and the wait for the last to be out, if there is one.
pub open spec fn write_body(base: u32, bytes: Seq<u8>) -> Seq<Step> {
    if bytes.len() == 0 {
        Seq::empty()
    } else {
        bytes_script(base, bytes).push(flag_step(base, STAT0_BTC))
    }
}

/// A write: START, address, bytes, and a STOP if asked for. Without one the bus is kept for a
/// repeated START. An empty write is a presence check.
pub open spec fn write_script(base: u32, addr7: u8, bytes: Seq<u8>, stop: bool) -> Seq<Step> {
    let sent = write_head(base, addr7) + write_body(base, bytes);
    if stop {
        sent.push(ctl0_step(base, CTL0_STOP, true))
    } else {
        sent
    }
}

proof fn bytes_prefix(base: u32, bytes: Seq<u8>, j: int)
    requires
        0 <= j <= bytes.len(),
    ensures
        bytes_script(base, bytes).len() == 2 * bytes.len(),
        bytes_script(base, bytes).take(2 * j) == bytes_script(base, bytes.take(j)),
    decreases bytes.len(),
{
    if bytes.len() == 0 {
        assert(bytes.take(j) =~= bytes);
        assert(bytes_script(base, bytes).take(0) =~= bytes_script(base, bytes));
    } else if j == bytes.len() {
        bytes_prefix(base, bytes.drop_last(), bytes.len() - 1);
        assert(bytes.take(j) =~= bytes);
        assert(bytes_script(base, bytes).take(2 * j) =~= bytes_script(base, bytes));
    } else {
        bytes_prefix(base, bytes.drop_last(), j);
        assert(bytes.drop_last().take(j) =~= bytes.take(j));
        assert(bytes_script(base, bytes).take(2 * j) =~= bytes_script(
            base,
            bytes.drop_last(),
        ).take(2 * j));
    }
}

// --- reading ----------------------------------------------------------------------------------

/// START and the address of a read of `n` bytes. For two, the acknowledge bit is made to govern
/// the second before START.
pub open spec fn read_lead(base: u32, addr7: u8, n: int) -> Seq<Step> {
    let ready = Seq::empty().push(ctl0_step(base, CTL0_ACKEN, true));
    let placed = if n == 2 {
        ready.push(ctl0_step(base, CTL0_POAP, true))
    } else {
        ready
    };
    placed.push(ctl0_step(base, CTL0_START, true)).push(flag_step(base, STAT0_SBSEND)).push(
        put_step(base, address_byte(addr7, true)),
    )
}

/// Taking one byte: no acknowledge, STOP requested once the address is through, then the byte.
pub open spec fn read_one(base: u32, d0: u32) -> Seq<Step> {
    Seq::empty().push(ctl0_step(base, CTL0_ACKEN, false)).push(
        flag_step(base, STAT0_ADDSEND),
    ).push(Step::Discard { addr: reg::at(base, STAT0) }).push(
        Step::Discard { addr: reg::at(base, STAT1) },
    ).push(ctl0_step(base, CTL0_STOP, true)).push(flag_step(base, STAT0_RBNE)).push(
        get_step(base, d0),
    )
}

/// Taking two bytes: both are held, the clock stretched, before STOP is requested.
pub open spec fn read_two(base: u32, d0: u32, d1: u32) -> Seq<Step> {
    Seq::empty().push(ctl0_step(base, CTL0_ACKEN, false)).push(
        flag_step(base, STAT0_ADDSEND),
    ).push(Step::Discard { addr: reg::at(base, STAT0) }).push(
        Step::Discard { addr: reg::at(base, STAT1) },
    ).push(flag_step(base, STAT0_BTC)).push(ctl0_step(base, CTL0_STOP, true)).push(
        get_step(base, d0),
    ).push(flag_step(base, STAT0_RBNE)).push(get_step(base, d1)).push(
        ctl0_step(base, CTL0_POAP, false),
    )
}

/// Taking bytes as they arrive.
pub open spec fn burst(base: u32, data: Seq<u32>) -> Seq<Step>
    decreases data.len(),
{
    if data.len() == 0 {
        Seq::empty()
    } else {
        burst(base, data.drop_last()).push(flag_step(base, STAT0_RBNE)).push(
            get_step(base, data.last()),
        )
    }
}

/// The address of a longer read being through.
pub open spec fn read_addressed(base: u32) -> Seq<Step> {
    Seq::empty().push(flag_step(base, STAT0_ADDSEND)).push(
        Step::Discard { addr: reg::at(base, STAT0) },
    ).push(Step::Discard { addr: reg::at(base, STAT1) })
}

/// Taking the last three bytes: the acknowledge is dropped and STOP requested while the clock is
/// stretched.
pub open spec fn read_close(base: u32, x: u32, y: u32, z: u32) -> Seq<Step> {
    Seq::empty().push(flag_step(base, STAT0_BTC)).push(ctl0_step(base, CTL0_ACKEN, false)).push(
        get_step(base, x),
    ).push(flag_step(base, STAT0_BTC)).push(ctl0_step(base, CTL0_STOP, true)).push(
        get_step(base, y),
    ).push(flag_step(base, STAT0_RBNE)).push(get_step(base, z))
}

/// Taking three bytes or more.
pub open spec fn read_many(base: u32, data: Seq<u32>) -> Seq<Step> {
    let n = data.len() as int;
    read_addressed(base) + burst(base, data.take(n - 3)) + read_close(
        base,
        data[n - 3],
        data[n - 2],
        data[n - 1],
    )
}

/// Taking the bytes of a read, by how many there are.
pub open spec fn read_body(base: u32, data: Seq<u32>) -> Seq<Step> {
    if data.len() == 1 {
        read_one(base, data[0])
    } else if data.len() == 2 {
        read_two(base, data[0], data[1])
    } else {
        read_many(base, data)
    }
}

/// A read in which the data register returns `data`: START, address, bytes, STOP, and the
/// acknowledge back on.
pub open spec fn read_script(base: u32, addr7: u8, data: Seq<u32>) -> Seq<Step> {
    (read_lead(base, addr7, data.len() as int) + read_body(base, data)).push(
        ctl0_step(base, CTL0_ACKEN, true),
    )
}

/// How many of the steps take a byte.
pub open spec fn taken(script: Seq<Step>) -> nat
    decreases script.len(),
{
    if script.len() == 0 {
        0
    } else {
        taken(script.drop_last()) + if script.last() is Load {
            1nat
        } else {
            0nat
        }
    }
}

/// `buf` with its first `got` bytes replaced by the low bytes of `data`.
pub open spec fn filled(buf: Seq<u8>, data: Seq<u32>, got: nat) -> Seq<u8> {
    Seq::new(
        buf.len(),
        |i: int|
            if i < got {
                (data[i] & 0xFF) as u8
            } else {
                buf[i]
            },
    )
}

/// `buf` with `got` bytes from place `start` on replaced by the low bytes of `data`.
pub open spec fn filled_at(buf: Seq<u8>, data: Seq<u32>, start: int, got: nat) -> Seq<u8> {
    Seq::new(
        buf.len(),
        |i: int|
            if start <= i < start + got {
                (data[i - start] & 0xFF) as u8
            } else {
                buf[i]
            },
    )
}

pub broadcast proof fn taken_push(script: Seq<Step>, step: Step)
    ensures
        #[trigger] taken(script.push(step)) == taken(script) + if step is Load {
            1nat
        } else {
            0nat
        },
{
    assert(script.push(step).drop_last() =~= script);
}

pub broadcast proof fn taken_empty()
    ensures
        #[trigger] taken(Seq::<Step>::empty()) == 0,
{
}

pub proof fn taken_append(s1: Seq<Step>, s2: Seq<Step>)
    ensures
        taken(s1 + s2) == taken(s1) + taken(s2),
    decreases s2.len(),
{
    if s2.len() == 0 {
        assert(s1 + s2 =~= s1);
    } else {
        taken_append(s1, s2.drop_last());
        assert((s1 + s2).drop_last() =~= s1 + s2.drop_last());
    }
}

pub proof fn burst_prefix(base: u32, data: Seq<u32>, j: int)
    requires
        0 <= j <= data.len(),
    ensures
        burst(base, data).len() == 2 * data.len(),
        burst(base, data).take(2 * j) == burst(base, data.take(j)),
        taken(burst(base, data)) == data.len(),
    decreases data.len(),
{
    broadcast use taken_push, taken_empty;

    if data.len() == 0 {
        assert(data.take(j) =~= data);
        assert(burst(base, data).take(0) =~= burst(base, data));
    } else if j == data.len() {
        burst_prefix(base, data.drop_last(), data.len() - 1);
        assert(data.take(j) =~= data);
        assert(burst(base, data).take(2 * j) =~= burst(base, data));
    } else {
        burst_prefix(base, data.drop_last(), j);
        assert(data.drop_last().take(j) =~= data.take(j));
        assert(burst(base, data).take(2 * j) =~= burst(base, data.drop_last()).take(2 * j));
    }
}

// --- the handle -------------------------------------------------------------------------------

/// A brought-up I2C master.
#[derive(Debug, Clone, Copy, PartialEq, Eq, Structural)]
pub struct I2c {
    base: u32,
    timing: I2cTiming,
}

impl I2c {
    /// The base of the block.
    pub closed spec fn at(self) -> u32 {
        self.base
    }

    /// The timing the block was brought up with.
    pub closed spec fn tuning(self) -> I2cTiming {
        self.timing
    }

    /// Bring the block `instance` up on two pins: clock on, pins open-drain, timing for the APB1
    /// clock of `clock`, block on.
    ///
    /// A chip without the block's base or an RCU base, or a label that is no I2C block, is refused
    /// before any register is touched.
    pub fn new<B: Bus, S, D>(
        bus: &mut B,
        chip: &Chip,
        clock: &ClockConfig,
        instance: PeriphLabel,
        pins: (Pin<S>, Pin<D>),
        mode: I2cMode,
    ) -> (r: Result<I2c, DescriptorError>)
        requires
            addr::resolved(chip.desc().addrs@, instance) is Ok && addr::resolved(
                chip.desc().addrs@,
                PeriphLabel::Rcu,
            ) is Ok && clock::i2c_bit(instance) is Ok ==> speed_in_range(mode.speed_hz, mode.duty),
        ensures
            match (
                addr::resolved(chip.desc().addrs@, instance),
                addr::resolved(chip.desc().addrs@, PeriphLabel::Rcu),
                clock::i2c_bit(instance),
            ) {
                (Err(e), _, _) => r == Err::<I2c, DescriptorError>(e) && *final(bus) == *old(bus),
                (Ok(_), Err(e), _) => r == Err::<I2c, DescriptorError>(e) && *final(bus) == *old(
                    bus,
                ),
                (Ok(_), Ok(_), Err(e)) => r == Err::<I2c, DescriptorError>(e) && *final(bus)
                    == *old(bus),
                (Ok(base), Ok(rcu), Ok(bit)) => {
                    let t = timing(apb1_hz(*clock), mode.speed_hz, mode.duty);
                    &&& r matches Ok(dev)
                    &&& dev.at() == base
                    &&& dev.tuning() == t
                    &&& reg::ran(
                        *old(bus),
                        *final(bus),
                        seq![bit.step(rcu)] + gpio::af_script(
                            pins.0.port(),
                            pins.0.model(),
                            pins.0.byte(),
                            PinRole::I2cAfOpenDrain,
                        ) + gpio::af_script(
                            pins.1.port(),
                            pins.1.model(),
                            pins.1.byte(),
                            PinRole::I2cAfOpenDrain,
                        ) + init_script(base, t),
                    )
                },
            },
    {
        let base: u32 = match chip.base(instance) {
            Ok(b) => b,
            Err(e) => {
                return Err(e);
            },
        };
        let rcu: u32 = match chip.rcu_base() {
            Ok(b) => b,
            Err(e) => {
                return Err(e);
            },
        };
        match clock::enable_i2c(bus, rcu, chip.clock(), instance) {
            Ok(()) => {},
            Err(e) => {
                return Err(e);
            },
        }
        let (scl, sda) = pins;
        let ghost b1 = *bus;
        gpio::configure_af(bus, scl.port_base(), scl.path(), scl.pin(), PinRole::I2cAfOpenDrain);
        let ghost b2 = *bus;
        gpio::configure_af(bus, sda.port_base(), sda.path(), sda.pin(), PinRole::I2cAfOpenDrain);
        let ghost b3 = *bus;
        let pclk1: u32 = i2c_input_clock(clock);
        let timing: I2cTiming = timing_for(pclk1, mode.speed_hz, mode.duty);
        let dev = I2c { base, timing };
        dev.init(bus);
        proof {
            let s0 = seq![clock::i2c_bit(instance)->Ok_0.step(rcu)];
            let s1 = gpio::af_script(scl.port(), scl.model(), scl.byte(), PinRole::I2cAfOpenDrain);
            let s2 = gpio::af_script(sda.port(), sda.model(), sda.byte(), PinRole::I2cAfOpenDrain);
            reg::ran_append(*old(bus), b1, b2, s0, s1);
            reg::ran_append(*old(bus), b2, b3, s0 + s1, s2);
            reg::ran_append(*old(bus), b3, *bus, s0 + s1 + s2, init_script(base, timing));
        }
        Ok(dev)
    }

    /// The base of the block.
    pub fn base(&self) -> (r: u32)
        ensures
            r == self.at(),
    {
        self.base
    }

    fn ctl0(&self) -> (r: Reg32)
        ensures
            r.addr == reg::at(self.base, CTL0),
    {
        Reg32::new(self.base, CTL0)
    }

    fn data(&self) -> (r: Reg32)
        ensures
            r.addr == reg::at(self.base, DATA),
    {
        Reg32::new(self.base, DATA)
    }

    fn stat0(&self) -> (r: Reg32)
        ensures
            r.addr == reg::at(self.base, STAT0),
    {
        Reg32::new(self.base, STAT0)
    }

    fn stat1(&self) -> (r: Reg32)
        ensures
            r.addr == reg::at(self.base, STAT1),
    {
        Reg32::new(self.base, STAT1)
    }

    fn configure_timing<B: Bus>(&self, bus: &mut B)
        ensures
            reg::ran(*old(bus), *final(bus), timing_script(self.base, self.timing)),
    {
        broadcast use reg::ran_then;

        proof {
            reg::ran_nothing(*bus);
        }
        Reg32::new(self.base, CTL1).modify(bus, CTL1_I2CCLK, self.timing.i2cclk);
        Reg32::new(self.base, RT).write(bus, self.timing.rt);
        Reg32::new(self.base, CKCFG).write(bus, self.timing.ckcfg);
    }

    fn init<B: Bus>(&self, bus: &mut B)
        ensures
            reg::ran(*old(bus), *final(bus), init_script(self.base, self.timing)),
    {
        broadcast use reg::ran_then;

        self.configure_timing(bus);
        self.set_ctl0(bus, CTL0_SMBEN, false);
        Reg32::new(self.base, SADDR0).write(bus, MASTER_OWN_ADDR as u32);
        self.set_ctl0(bus, CTL0_I2CEN, true);
        self.set_ack(bus, true);
    }

    fn set_ctl0<B: Bus>(&self, bus: &mut B, mask: u32, on: bool)
        ensures
            reg::did(*old(bus), *final(bus), ctl0_step(self.base, mask, on)),
    {
        self.ctl0().modify(bus, mask, if on {
            mask
        } else {
            0
        });
    }

    fn start_on_bus<B: Bus>(&self, bus: &mut B)
        ensures
            reg::did(*old(bus), *final(bus), ctl0_step(self.base, CTL0_START, true)),
    {
        self.set_ctl0(bus, CTL0_START, true);
    }

    fn stop_on_bus<B: Bus>(&self, bus: &mut B)
        ensures
            reg::did(*old(bus), *final(bus), ctl0_step(self.base, CTL0_STOP, true)),
    {
        self.set_ctl0(bus, CTL0_STOP, true);
    }

    fn set_ack<B: Bus>(&self, bus: &mut B, enable: bool)
        ensures
            reg::did(*old(bus), *final(bus), ctl0_step(self.base, CTL0_ACKEN, enable)),
    {
        self.set_ctl0(bus, CTL0_ACKEN, enable);
    }

    fn set_poap<B: Bus>(&self, bus: &mut B, next: bool)
        ensures
            reg::did(*old(bus), *final(bus), ctl0_step(self.base, CTL0_POAP, next)),
    {
        self.set_ctl0(bus, CTL0_POAP, next);
    }

    fn send_address<B: Bus>(&self, bus: &mut B, addr7: u8, read: bool)
        ensures
            reg::did(*old(bus), *final(bus), put_step(self.base, address_byte(addr7, read))),
    {
        let rw: u32 = if read {
            1
        } else {
            0
        };
        self.data().write(bus, ((addr7 as u32) << 1) | rw);
    }

    fn transmit<B: Bus>(&self, bus: &mut B, byte: u8)
        ensures
            reg::did(*old(bus), *final(bus), put_step(self.base, byte as u32)),
    {
        self.data().write(bus, byte as u32);
    }

    /// Take a byte from the data register: the low byte of what it returns.
    pub fn receive<B: Bus>(&self, bus: &mut B) -> (r: u8)
        ensures
            reg::did(
                *old(bus),
                *final(bus),
                get_step(self.at(), reg::last_load(final(bus).log())),
            ),
            r == (reg::last_load(final(bus).log()) & 0xFF) as u8,
    {
        let v: u32 = self.data().read(bus);
        (v & 0xFF) as u8
    }

    fn soft_reset_reinit<B: Bus>(&self, bus: &mut B)
        ensures
            reg::ran(*old(bus), *final(bus), reinit_script(self.base, self.timing)),
    {
        broadcast use reg::ran_then;

        proof {
            reg::ran_nothing(*bus);
        }
        self.ctl0().write(bus, CTL0_SRESET);
        self.ctl0().write(bus, 0);
        let ghost mid = *bus;
        self.init(bus);
        proof {
            reg::ran_append(
                *old(bus),
                mid,
                *bus,
                Seq::empty().push(
                    Step::Store { addr: reg::at(self.base, CTL0), value: CTL0_SRESET },
                ).push(Step::Store { addr: reg::at(self.base, CTL0), value: 0 }),
                init_script(self.base, self.timing),
            );
        }
    }

    /// Put the block back into a usable state after a failed transfer.
    fn recover<B: Bus>(&self, bus: &mut B)
        ensures
            recovered(*old(bus), *final(bus), self.base, self.timing),
    {
        broadcast use reg::ran_then;

        let ghost b0 = *bus;
        proof {
            reg::ran_nothing(b0);
        }
        let s: u32 = self.stat0().read(bus);
        self.stat0().write(bus, s & !STAT0_ERRORS);
        let m: u32 = self.stat1().read(bus);
        if m & STAT1_MASTER != 0 {
            self.stop_on_bus(bus);
            self.ctl0().settle(bus, Want::Low { mask: CTL0_STOP }, BUSY_TIMEOUT as u64);
        }
        assert(reg::ran(b0, *bus, release_script(self.base, s, m)));
        let b: u32 = self.stat1().read(bus);
        let c: u32 = self.ctl0().read(bus);
        let ghost looked = release_script(self.base, s, m).push(
            Step::Load { addr: reg::at(self.base, STAT1), value: b },
        ).push(Step::Load { addr: reg::at(self.base, CTL0), value: c });
        let ghost bl = *bus;
        if b & 0x3 == STAT1_I2CBSY || c & 0x300 != 0 {
            self.soft_reset_reinit(bus);
            proof {
                reg::ran_append(b0, bl, *bus, looked, reinit_script(self.base, self.timing));
            }
        }
        self.set_poap(bus, false);
        self.set_ack(bus, true);
        assert(reg::ran(b0, *bus, recover_script(self.base, self.timing, s, m, b, c)));
    }
}

impl I2c {
    /// Poll `STAT0` for a flag; an error flag or a spent budget is an error.
    fn wait_flag<B: Bus>(&self, bus: &mut B, flag: u32) -> (r: Result<u32, I2cError>)
        ensures
            match r {
                Ok(v) => {
                    &&& reg::did(*old(bus), *final(bus), flag_step(self.base, flag))
                    &&& v == reg::last_load(final(bus).log())
                    &&& v & flag != 0
                },
                Err(e) => {
                    &&& reg::stuck(*old(bus), *final(bus), flag_step(self.base, flag))
                    &&& e == fault(reg::last_load(final(bus).log()), flag)
                },
            },
    {
        match self.stat0().poll(bus, Want::High { mask: flag }, STAT0_ERRORS, I2C_TIMEOUT as u64) {
            Ok(v) => Ok(v),
            Err(s) => {
                if s & STAT0_BERR != 0 {
                    return Err(I2cError::Bus);
                }
                if s & STAT0_LOSTARB != 0 {
                    return Err(I2cError::ArbitrationLoss);
                }
                if s & STAT0_AERR != 0 {
                    return if flag == STAT0_SBSEND || flag == STAT0_ADDSEND {
                        Err(I2cError::NoAcknowledgeAddress)
                    } else {
                        Err(I2cError::NoAcknowledgeData)
                    };
                }
                if s & STAT0_OUERR != 0 {
                    return Err(I2cError::Overrun);
                }
                Err(I2cError::Timeout)
            },
        }
    }

    /// What waiting for an idle bus comes to: idle at once, or after a recovery; a bus that is
    /// busy even then is an error.
    pub open spec fn idled<B: Bus>(self, b0: B, b1: B, r: Result<(), I2cError>) -> bool {
        ||| r == Ok::<(), I2cError>(()) && reg::ran(b0, b1, seq![idle_step(self.at())])
        ||| exists|m1: B, m2: B|
            {
                let v = reg::last_load(b1.log());
                &&& #[trigger] reg::stuck(b0, m1, idle_step(self.at()))
                &&& #[trigger] recovered(m1, m2, self.at(), self.tuning())
                &&& reg::ran(
                    m2,
                    b1,
                    seq![Step::Load { addr: reg::at(self.at(), STAT1), value: v }],
                )
                &&& r == (if v & STAT1_I2CBSY == 0 {
                    Ok::<(), I2cError>(())
                } else {
                    Err(I2cError::Bus)
                })
            }
    }

    fn wait_bus_idle<B: Bus>(&self, bus: &mut B) -> (r: Result<(), I2cError>)
        ensures
            self.idled(*old(bus), *final(bus), r),
    {
        match self.stat1().poll(bus, Want::Low { mask: STAT1_I2CBSY }, 0, BUSY_TIMEOUT as u64) {
            Ok(_) => {
                proof {
                    reg::ran_one(*old(bus), *bus, idle_step(self.base));
                }
                Ok(())
            },
            Err(_) => {
                let ghost m1 = *bus;
                self.recover(bus);
                let ghost m2 = *bus;
                let v: u32 = self.stat1().read(bus);
                proof {
                    reg::ran_one(
                        m2,
                        *bus,
                        Step::Load { addr: reg::at(self.base, STAT1), value: v },
                    );
                    assert(reg::stuck(*old(bus), m1, idle_step(self.at())));
                    assert(recovered(m1, m2, self.at(), self.tuning()));
                }
                if v & STAT1_I2CBSY == 0 {
                    Ok(())
                } else {
                    Err(I2cError::Bus)
                }
            },
        }
    }

    fn address_for_write<B: Bus>(&self, bus: &mut B, addr7: u8) -> (r: (
        Result<(), I2cError>,
        Ghost<int>,
    ))
        ensures
            transfer(*old(bus), *final(bus), write_head(self.base, addr7), r.0, r.1@),
    {
        broadcast use reg::ran_then;

        let ghost b0 = *bus;
        let ghost script = write_head(self.base, addr7);
        proof {
            reg::ran_nothing(b0);
        }
        self.set_ack(bus, true);
        self.start_on_bus(bus);
        let ghost bm = *bus;
        match self.wait_flag(bus, STAT0_SBSEND) {
            Ok(_) => {},
            Err(e) => {
                proof {
                    let done = Seq::empty().push(script[0]).push(script[1]);
                    assert(script.take(2) =~= done);
                    transfer_fails(b0, bm, *bus, done, self.base, STAT0_SBSEND, script);
                }
                return (Err(e), Ghost(2));
            },
        }
        self.send_address(bus, addr7, false);
        let ghost bm = *bus;
        match self.wait_flag(bus, STAT0_ADDSEND) {
            Ok(_) => {},
            Err(e) => {
                proof {
                    let done = Seq::empty().push(script[0]).push(script[1]).push(script[2]).push(
                        script[3],
                    );
                    assert(script.take(4) =~= done);
                    transfer_fails(b0, bm, *bus, done, self.base, STAT0_ADDSEND, script);
                }
                return (Err(e), Ghost(4));
            },
        }
        self.stat0().discard(bus);
        self.stat1().discard(bus);
        (Ok(()), Ghost(script.len() as int))
    }

    fn send_bytes<B: Bus>(&self, bus: &mut B, bytes: &[u8]) -> (r: (
        Result<(), I2cError>,
        Ghost<int>,
    ))
        ensures
            transfer(*old(bus), *final(bus), write_body(self.base, bytes@), r.0, r.1@),
    {
        let ghost b0 = *bus;
        let ghost body = bytes_script(self.base, bytes@);
        let ghost script = write_body(self.base, bytes@);
        let n: usize = bytes.len();
        proof {
            reg::ran_nothing(b0);
            assert(bytes@.take(0) =~= Seq::empty());
            bytes_prefix(self.base, bytes@, bytes@.len() as int);
        }
        let mut i: usize = 0;
        while i < n
            invariant
                b0 == *old(bus),
                n == bytes@.len(),
                i <= n,
                body == bytes_script(self.base, bytes@),
                body.len() == 2 * n,
                script == write_body(self.base, bytes@),
                reg::ran(b0, *bus, bytes_script(self.base, bytes@.take(i as int))),
            decreases n - i,
        {
            broadcast use reg::ran_then;

            let ghost bm = *bus;
            let ghost done = bytes_script(self.base, bytes@.take(i as int));
            proof {
                bytes_prefix(self.base, bytes@, i as int);
                bytes_prefix(self.base, bytes@, i + 1);
                bytes_prefix(self.base, bytes@.take(i as int), i as int);
                assert(bytes@.take(i + 1).drop_last() =~= bytes@.take(i as int));
                assert(script.take(2 * i) =~= body.take(2 * i));
                assert(script[2 * i as int] == body.take(2 * (i + 1))[2 * i as int]);
            }
            match self.wait_flag(bus, STAT0_TBE) {
                Ok(_) => {},
                Err(e) => {
                    proof {
                        transfer_fails(b0, bm, *bus, done, self.base, STAT0_TBE, script);
                    }
                    return (Err(e), Ghost(2 * i as int));
                },
            }
            self.transmit(bus, bytes[i]);
            i = i + 1;
        }
        proof {
            assert(bytes@.take(n as int) =~= bytes@);
        }
        if n > 0 {
            broadcast use reg::ran_then;

            let ghost bm = *bus;
            match self.wait_flag(bus, STAT0_BTC) {
                Ok(_) => {},
                Err(e) => {
                    proof {
                        assert(script.take(2 * n) =~= body);
                        transfer_fails(b0, bm, *bus, body, self.base, STAT0_BTC, script);
                    }
                    return (Err(e), Ghost(2 * n as int));
                },
            }
        }
        (Ok(()), Ghost(script.len() as int))
    }

    fn write_inner<B: Bus>(&self, bus: &mut B, addr7: u8, bytes: &[u8], stop: bool) -> (r: (
        Result<(), I2cError>,
        Ghost<int>,
    ))
        ensures
            transfer(
                *old(bus),
                *final(bus),
                write_script(self.base, addr7, bytes@, stop),
                r.0,
                r.1@,
            ),
    {
        let ghost b0 = *bus;
        let ghost head = write_head(self.base, addr7);
        let ghost body = write_body(self.base, bytes@);
        let ghost last = if stop {
            seq![ctl0_step(self.base, CTL0_STOP, true)]
        } else {
            Seq::empty()
        };
        let ghost script = write_script(self.base, addr7, bytes@, stop);
        proof {
            assert(script =~= head + (body + last));
            assert(script =~= (head + body) + last);
        }
        let (r, Ghost(k)) = self.address_for_write(bus, addr7);
        if r.is_err() {
            proof {
                transfer_cut(b0, *bus, head, body + last, r, k);
            }
            return (r, Ghost(k));
        }
        let ghost b1 = *bus;
        let (r, Ghost(k)) = self.send_bytes(bus, bytes);
        proof {
            transfer_after(b0, b1, *bus, head, body, r, k);
        }
        if r.is_err() {
            proof {
                transfer_cut(b0, *bus, head + body, last, r, head.len() + k);
            }
            return (r, Ghost(head.len() + k));
        }
        if stop {
            let ghost b2 = *bus;
            self.stop_on_bus(bus);
            proof {
                reg::ran_then(
                    b0,
                    b2,
                    *bus,
                    head + body,
                    ctl0_step(self.base, CTL0_STOP, true),
                );
            }
        } else {
            proof {
                assert(head + body + last =~= head + body);
            }
        }
        (Ok(()), Ghost(script.len() as int))
    }

    /// A transfer that may have to wait for an idle bus first, and recovers if it fails.
    pub open spec fn guarded<B: Bus>(
        self,
        b0: B,
        b1: B,
        fresh: bool,
        script: Seq<Step>,
        r: Result<(), I2cError>,
        k: int,
    ) -> bool {
        ||| fresh && r is Err && k == -1 && self.idled(b0, b1, r)
        ||| exists|m1: B, m2: B|
            {
                &&& if fresh {
                    self.idled(b0, m1, Ok::<(), I2cError>(()))
                } else {
                    m1 == b0
                }
                &&& #[trigger] transfer(m1, m2, script, r, k)
                &&& if r is Ok {
                    b1 == m2
                } else {
                    recovered(m2, b1, self.at(), self.tuning())
                }
            }
    }

    /// What a write comes to.
    pub open spec fn wrote<B: Bus>(
        self,
        b0: B,
        b1: B,
        addr7: u8,
        bytes: Seq<u8>,
        fresh: bool,
        stop: bool,
        r: Result<(), I2cError>,
    ) -> bool {
        exists|k: int|
            #[trigger] self.guarded(
                b0,
                b1,
                fresh,
                write_script(self.at(), addr7, bytes, stop),
                r,
                k,
            )
    }

    /// Write `bytes` to the device at `addr7`.
    ///
    /// A `fresh` write starts on a bus this side does not hold, and waits for it to be idle first.
    /// With `stop` the bus is released, without it a repeated START may follow. A failed write
    /// recovers the block before its error is returned.
    pub fn write_bytes<B: Bus>(
        &self,
        bus: &mut B,
        addr7: u8,
        bytes: &[u8],
        fresh: bool,
        stop: bool,
    ) -> (r: Result<(), I2cError>)
        ensures
            self.wrote(*old(bus), *final(bus), addr7, bytes@, fresh, stop, r),
    {
        let ghost script = write_script(self.at(), addr7, bytes@, stop);
        if fresh {
            match self.wait_bus_idle(bus) {
                Ok(()) => {},
                Err(e) => {
                    assert(self.guarded(*old(bus), *bus, fresh, script, Err(e), -1));
                    return Err(e);
                },
            }
        }
        let ghost m1 = *bus;
        let (r, Ghost(k)) = self.write_inner(bus, addr7, bytes, stop);
        let ghost m2 = *bus;
        if r.is_err() {
            self.recover(bus);
        }
        proof {
            assert(transfer(m1, m2, script, r, k));
            assert(self.guarded(*old(bus), *bus, fresh, script, r, k));
        }
        r
    }
}

/// A transfer into a buffer: its script, and how far the buffer was filled.
pub open spec fn intake<B: Bus>(
    b0: B,
    b1: B,
    script: Seq<Step>,
    data: Seq<u32>,
    buf0: Seq<u8>,
    buf1: Seq<u8>,
    r: Result<(), I2cError>,
    k: int,
) -> bool {
    &&& transfer(b0, b1, script, r, k)
    &&& buf1 == filled(buf0, data, taken(script.take(k)))
}

impl I2c {
    fn address_for_read<B: Bus>(&self, bus: &mut B, addr7: u8, n: usize) -> (r: (
        Result<(), I2cError>,
        Ghost<int>,
    ))
        ensures
            transfer(*old(bus), *final(bus), read_lead(self.base, addr7, n as int), r.0, r.1@),
            taken(read_lead(self.base, addr7, n as int).take(r.1@)) == 0,
    {
        broadcast use {reg::ran_then, taken_push, taken_empty};

        let ghost b0 = *bus;
        let ghost script = read_lead(self.base, addr7, n as int);
        proof {
            reg::ran_nothing(b0);
        }
        self.set_ack(bus, true);
        if n == 2 {
            self.set_poap(bus, true);
        }
        self.start_on_bus(bus);
        let ghost bm = *bus;
        let ghost ready = Seq::empty().push(ctl0_step(self.base, CTL0_ACKEN, true));
        let ghost done = (if n == 2 {
            ready.push(ctl0_step(self.base, CTL0_POAP, true))
        } else {
            ready
        }).push(ctl0_step(self.base, CTL0_START, true));
        assert(script.take(done.len() as int) =~= done);
        match self.wait_flag(bus, STAT0_SBSEND) {
            Ok(_) => {},
            Err(e) => {
                proof {
                    transfer_fails(b0, bm, *bus, done, self.base, STAT0_SBSEND, script);
                }
                return (Err(e), Ghost(done.len() as int));
            },
        }
        self.send_address(bus, addr7, true);
        assert(script.take(script.len() as int) =~= script);
        (Ok(()), Ghost(script.len() as int))
    }

    fn receive_one<B: Bus>(&self, bus: &mut B, buf: &mut [u8]) -> (r: (
        Result<(), I2cError>,
        Ghost<Seq<u32>>,
        Ghost<int>,
    ))
        requires
            old(buf)@.len() == 1,
        ensures
            r.1@.len() == 1,
            intake(
                *old(bus),
                *final(bus),
                read_body(self.base, r.1@),
                r.1@,
                old(buf)@,
                final(buf)@,
                r.0,
                r.2@,
            ),
    {
        broadcast use {reg::ran_then, taken_push, taken_empty};

        let ghost b0 = *bus;
        let ghost nil = seq![0u32];
        let ghost script = read_one(self.base, 0);
        proof {
            reg::ran_nothing(b0);
        }
        self.set_ack(bus, false);
        let ghost bm = *bus;
        match self.wait_flag(bus, STAT0_ADDSEND) {
            Ok(_) => {},
            Err(e) => {
                proof {
                    let done = Seq::empty().push(script[0]);
                    assert(script.take(1) =~= done);
                    transfer_fails(b0, bm, *bus, done, self.base, STAT0_ADDSEND, script);
                    assert(filled(buf@, nil, 0) =~= buf@);
                }
                return (Err(e), Ghost(nil), Ghost(1));
            },
        }
        self.stat0().discard(bus);
        self.stat1().discard(bus);
        self.stop_on_bus(bus);
        let ghost bm = *bus;
        match self.wait_flag(bus, STAT0_RBNE) {
            Ok(_) => {},
            Err(e) => {
                proof {
                    let done = Seq::empty().push(script[0]).push(script[1]).push(script[2]).push(
                        script[3],
                    ).push(script[4]);
                    assert(script.take(5) =~= done);
                    transfer_fails(b0, bm, *bus, done, self.base, STAT0_RBNE, script);
                    assert(filled(buf@, nil, 0) =~= buf@);
                }
                return (Err(e), Ghost(nil), Ghost(5));
            },
        }
        let b: u8 = self.receive(bus);
        let ghost data = seq![reg::last_load(bus.log())];
        buf[0] = b;
        proof {
            let whole = read_one(self.base, data[0]);
            assert(whole.take(7) =~= whole);
            assert(filled(old(buf)@, data, 1) =~= buf@);
        }
        (Ok(()), Ghost(data), Ghost(7))
    }

    fn receive_two<B: Bus>(&self, bus: &mut B, buf: &mut [u8]) -> (r: (
        Result<(), I2cError>,
        Ghost<Seq<u32>>,
        Ghost<int>,
    ))
        requires
            old(buf)@.len() == 2,
        ensures
            r.1@.len() == 2,
            intake(
                *old(bus),
                *final(bus),
                read_body(self.base, r.1@),
                r.1@,
                old(buf)@,
                final(buf)@,
                r.0,
                r.2@,
            ),
    {
        broadcast use {reg::ran_then, taken_push, taken_empty};

        let ghost b0 = *bus;
        let ghost nil = seq![0u32].push(0);
        let ghost script = read_two(self.base, 0, 0);
        proof {
            reg::ran_nothing(b0);
            assert(filled(buf@, nil, 0) =~= buf@);
        }
        self.set_ack(bus, false);
        let ghost bm = *bus;
        match self.wait_flag(bus, STAT0_ADDSEND) {
            Ok(_) => {},
            Err(e) => {
                proof {
                    let done = Seq::empty().push(script[0]);
                    assert(script.take(1) =~= done);
                    transfer_fails(b0, bm, *bus, done, self.base, STAT0_ADDSEND, script);
                }
                return (Err(e), Ghost(nil), Ghost(1));
            },
        }
        self.stat0().discard(bus);
        self.stat1().discard(bus);
        let ghost bm = *bus;
        match self.wait_flag(bus, STAT0_BTC) {
            Ok(_) => {},
            Err(e) => {
                proof {
                    let done = Seq::empty().push(script[0]).push(script[1]).push(script[2]).push(
                        script[3],
                    );
                    assert(script.take(4) =~= done);
                    transfer_fails(b0, bm, *bus, done, self.base, STAT0_BTC, script);
                }
                return (Err(e), Ghost(nil), Ghost(4));
            },
        }
        self.stop_on_bus(bus);
        let b: u8 = self.receive(bus);
        let ghost x = reg::last_load(bus.log());
        buf[0] = b;
        let ghost bm = *bus;
        match self.wait_flag(bus, STAT0_RBNE) {
            Ok(_) => {},
            Err(e) => {
                proof {
                    let data = seq![x].push(0);
                    let script = read_two(self.base, x, 0);
                    let done = Seq::empty().push(script[0]).push(script[1]).push(script[2]).push(
                        script[3],
                    ).push(script[4]).push(script[5]).push(script[6]);
                    assert(script.take(7) =~= done);
                    transfer_fails(b0, bm, *bus, done, self.base, STAT0_RBNE, script);
                    assert(filled(old(buf)@, data, 1) =~= buf@);
                }
                return (Err(e), Ghost(seq![x].push(0)), Ghost(7));
            },
        }
        let b: u8 = self.receive(bus);
        let ghost y = reg::last_load(bus.log());
        buf[1] = b;
        self.set_poap(bus, false);
        proof {
            let data = seq![x].push(y);
            let whole = read_two(self.base, x, y);
            assert(whole.take(10) =~= whole);
            assert(filled(old(buf)@, data, 2) =~= buf@);
        }
        (Ok(()), Ghost(seq![x].push(y)), Ghost(10))
    }

    /// The last three bytes of a longer read, into `buf` from place `start` on.
    fn receive_close<B: Bus>(&self, bus: &mut B, buf: &mut [u8], start: usize) -> (r: (
        Result<(), I2cError>,
        Ghost<Seq<u32>>,
        Ghost<int>,
    ))
        requires
            old(buf)@.len() == start + 3,
        ensures
            r.1@.len() == 3,
            transfer(
                *old(bus),
                *final(bus),
                read_close(self.base, r.1@[0], r.1@[1], r.1@[2]),
                r.0,
                r.2@,
            ),
            final(buf)@ == filled_at(
                old(buf)@,
                r.1@,
                start as int,
                taken(read_close(self.base, r.1@[0], r.1@[1], r.1@[2]).take(r.2@)),
            ),
    {
        broadcast use {reg::ran_then, taken_push, taken_empty};

        let ghost b0 = *bus;
        proof {
            reg::ran_nothing(b0);
        }
        match self.wait_flag(bus, STAT0_BTC) {
            Ok(_) => {},
            Err(e) => {
                let ghost data = seq![0u32].push(0).push(0);
                proof {
                    let script = read_close(self.base, 0, 0, 0);
                    let done = Seq::<Step>::empty();
                    assert(script.take(0) =~= done);
                    transfer_fails(b0, b0, *bus, done, self.base, STAT0_BTC, script);
                    assert(filled_at(buf@, data, start as int, 0) =~= buf@);
                }
                return (Err(e), Ghost(data), Ghost(0));
            },
        }
        self.set_ack(bus, false);
        let b: u8 = self.receive(bus);
        let ghost x = reg::last_load(bus.log());
        buf[start] = b;
        let ghost bm = *bus;
        match self.wait_flag(bus, STAT0_BTC) {
            Ok(_) => {},
            Err(e) => {
                let ghost data = seq![x].push(0).push(0);
                proof {
                    let script = read_close(self.base, x, 0, 0);
                    let done = Seq::empty().push(script[0]).push(script[1]).push(script[2]);
                    assert(script.take(3) =~= done);
                    transfer_fails(b0, bm, *bus, done, self.base, STAT0_BTC, script);
                    assert(filled_at(old(buf)@, data, start as int, 1) =~= buf@);
                }
                return (Err(e), Ghost(data), Ghost(3));
            },
        }
        self.stop_on_bus(bus);
        let b: u8 = self.receive(bus);
        let ghost y = reg::last_load(bus.log());
        buf[start + 1] = b;
        let ghost bm = *bus;
        match self.wait_flag(bus, STAT0_RBNE) {
            Ok(_) => {},
            Err(e) => {
                let ghost data = seq![x].push(y).push(0);
                proof {
                    let script = read_close(self.base, x, y, 0);
                    let done = Seq::empty().push(script[0]).push(script[1]).push(script[2]).push(
                        script[3],
                    ).push(script[4]).push(script[5]);
                    assert(script.take(6) =~= done);
                    transfer_fails(b0, bm, *bus, done, self.base, STAT0_RBNE, script);
                    assert(filled_at(old(buf)@, data, start as int, 2) =~= buf@);
                }
                return (Err(e), Ghost(data), Ghost(6));
            },
        }
        let b: u8 = self.receive(bus);
        let ghost z = reg::last_load(bus.log());
        buf[start + 2] = b;
        proof {
            let data = seq![x].push(y).push(z);
            let whole = read_close(self.base, x, y, z);
            assert(whole.take(8) =~= whole);
            assert(filled_at(old(buf)@, data, start as int, 3) =~= buf@);
        }
        (Ok(()), Ghost(seq![x].push(y).push(z)), Ghost(8))
    }

    fn address_through<B: Bus>(&self, bus: &mut B) -> (r: (Result<(), I2cError>, Ghost<int>))
        ensures
            transfer(*old(bus), *final(bus), read_addressed(self.base), r.0, r.1@),
            r.0 is Err ==> r.1@ == 0,
    {
        broadcast use reg::ran_then;

        let ghost b0 = *bus;
        proof {
            reg::ran_nothing(b0);
        }
        match self.wait_flag(bus, STAT0_ADDSEND) {
            Ok(_) => {},
            Err(e) => {
                proof {
                    let script = read_addressed(self.base);
                    let done = Seq::<Step>::empty();
                    assert(script.take(0) =~= done);
                    transfer_fails(b0, b0, *bus, done, self.base, STAT0_ADDSEND, script);
                }
                return (Err(e), Ghost(0));
            },
        }
        self.stat0().discard(bus);
        self.stat1().discard(bus);
        (Ok(()), Ghost(3))
    }

    /// The first `m` bytes of a longer read, into the first places of `buf`.
    fn receive_burst<B: Bus>(&self, bus: &mut B, buf: &mut [u8], m: usize) -> (r: (
        Result<(), I2cError>,
        Ghost<Seq<u32>>,
        Ghost<int>,
    ))
        requires
            m <= old(buf)@.len(),
        ensures
            r.1@.len() == m,
            intake(
                *old(bus),
                *final(bus),
                burst(self.base, r.1@),
                r.1@,
                old(buf)@,
                final(buf)@,
                r.0,
                r.2@,
            ),
    {
        let ghost b0 = *bus;
        let ghost buf0 = buf@;
        let ghost mut got: Seq<u32> = Seq::empty();
        proof {
            reg::ran_nothing(b0);
            assert(filled(buf0, got, 0) =~= buf@);
        }
        let mut i: usize = 0;
        while i < m
            invariant
                b0 == *old(bus),
                buf0 == old(buf)@,
                i <= m,
                m <= buf@.len(),
                buf@.len() == buf0.len(),
                got.len() == i,
                buf@ == filled(buf0, got, i as nat),
                reg::ran(b0, *bus, burst(self.base, got)),
            decreases m - i,
        {
            broadcast use reg::ran_then;

            let ghost bm = *bus;
            let ghost done = burst(self.base, got);
            match self.wait_flag(bus, STAT0_RBNE) {
                Ok(_) => {},
                Err(e) => {
                    let ghost data = got + Seq::new((m - i) as nat, |j: int| 0u32);
                    proof {
                        let script = burst(self.base, data);
                        burst_prefix(self.base, data, i as int);
                        burst_prefix(self.base, data, i + 1);
                        burst_prefix(self.base, got, i as int);
                        assert(data.take(i as int) =~= got);
                        assert(data.take(i + 1).drop_last() =~= got);
                        assert(script[2 * i as int] == script.take(2 * (i + 1))[2 * i as int]);
                        transfer_fails(b0, bm, *bus, done, self.base, STAT0_RBNE, script);
                        assert(filled(buf0, data, i as nat) =~= filled(buf0, got, i as nat));
                    }
                    return (Err(e), Ghost(data), Ghost(2 * i as int));
                },
            }
            let b: u8 = self.receive(bus);
            let ghost v = reg::last_load(bus.log());
            buf[i] = b;
            proof {
                let next = got.push(v);
                assert(next.drop_last() =~= got);
                assert(filled(buf0, next, (i + 1) as nat) =~= buf@);
                got = next;
            }
            i = i + 1;
        }
        proof {
            burst_prefix(self.base, got, m as int);
            assert(got.take(m as int) =~= got);
            let script = burst(self.base, got);
            assert(script.take(2 * m) =~= script);
        }
        (Ok(()), Ghost(got), Ghost(2 * m as int))
    }

    fn receive_many<B: Bus>(&self, bus: &mut B, buf: &mut [u8]) -> (r: (
        Result<(), I2cError>,
        Ghost<Seq<u32>>,
        Ghost<int>,
    ))
        requires
            old(buf)@.len() >= 3,
        ensures
            r.1@.len() == old(buf)@.len(),
            intake(
                *old(bus),
                *final(bus),
                read_body(self.base, r.1@),
                r.1@,
                old(buf)@,
                final(buf)@,
                r.0,
                r.2@,
            ),
    {
        let ghost b0 = *bus;
        let ghost buf0 = buf@;
        let n: usize = buf.len();
        let ghost addressed = read_addressed(self.base);
        let (r, Ghost(k)) = self.address_through(bus);
        if r.is_err() {
            let ghost data = Seq::new(n as nat, |j: int| 0u32);
            proof {
                let rest = burst(self.base, data.take(n - 3)) + read_close(
                    self.base,
                    data[n - 3],
                    data[n - 2],
                    data[n - 1],
                );
                let script = read_many(self.base, data);
                assert(script =~= addressed + rest);
                transfer_cut(b0, *bus, addressed, rest, r, k);
                assert(script.take(0) =~= Seq::<Step>::empty());
                assert(filled(buf0, data, 0) =~= buf@);
            }
            return (r, Ghost(data), Ghost(k));
        }
        proof {
            broadcast use {taken_push, taken_empty};

            assert(taken(addressed) == 0);
        }
        let ghost b1 = *bus;
        let (r, Ghost(first), Ghost(k)) = self.receive_burst(bus, buf, n - 3);
        let ghost body = burst(self.base, first);
        proof {
            transfer_after(b0, b1, *bus, addressed, body, r, k);
        }
        if r.is_err() {
            let ghost data = first.push(0).push(0).push(0);
            proof {
                let script = read_many(self.base, data);
                let rest = read_close(self.base, data[n - 3], data[n - 2], data[n - 1]);
                assert(data.take(n - 3) =~= first);
                assert(script =~= (addressed + body) + rest);
                transfer_cut(b0, *bus, addressed + body, rest, r, 3 + k);
                assert(script.take(3 + k) =~= addressed + body.take(k));
                taken_append(addressed, body.take(k));
                burst_prefix(self.base, first, 0);
                taken_append(body.take(k), body.skip(k));
                assert(body.take(k) + body.skip(k) =~= body);
                assert(filled(buf0, data, taken(body.take(k))) =~= filled(
                    buf0,
                    first,
                    taken(body.take(k)),
                ));
            }
            return (r, Ghost(data), Ghost(3 + k));
        }
        let ghost b2 = *bus;
        let ghost buf1 = buf@;
        let (r, Ghost(last), Ghost(k)) = self.receive_close(bus, buf, n - 3);
        let ghost data = first + last;
        proof {
            let rest = read_close(self.base, last[0], last[1], last[2]);
            let script = read_many(self.base, data);
            assert(data.take(n - 3) =~= first);
            assert(script =~= (addressed + body) + rest);
            transfer_after(b0, b2, *bus, addressed + body, rest, r, k);
            burst_prefix(self.base, first, n - 3);
            assert(body.take(2 * (n - 3)) =~= body);
            taken_append(addressed, body);
            taken_append(addressed + body, rest.take(k));
            assert(script.take((addressed + body).len() + k) =~= (addressed + body) + rest.take(k));
            taken_append(rest.take(k), rest.skip(k));
            assert(rest.take(k) + rest.skip(k) =~= rest);
            assert(taken(rest) == 3) by {
                broadcast use {taken_push, taken_empty};

            }
            let got = taken(rest.take(k));
            assert(filled(buf0, data, (n - 3 + got) as nat) =~= buf@);
        }
        (r, Ghost(data), Ghost((addressed + body).len() + k))
    }

    fn read_inner<B: Bus>(&self, bus: &mut B, addr7: u8, buf: &mut [u8]) -> (r: (
        Result<(), I2cError>,
        Ghost<Seq<u32>>,
        Ghost<int>,
    ))
        requires
            old(buf)@.len() >= 1,
        ensures
            r.1@.len() == old(buf)@.len(),
            r.2@ >= 0,
            intake(
                *old(bus),
                *final(bus),
                read_script(self.base, addr7, r.1@),
                r.1@,
                old(buf)@,
                final(buf)@,
                r.0,
                r.2@,
            ),
    {
        let ghost b0 = *bus;
        let ghost buf0 = buf@;
        let n: usize = buf.len();
        let ghost lead = read_lead(self.base, addr7, n as int);
        let ghost last = seq![ctl0_step(self.base, CTL0_ACKEN, true)];
        let (r, Ghost(k)) = self.address_for_read(bus, addr7, n);
        if r.is_err() {
            let ghost data = Seq::new(n as nat, |j: int| 0u32);
            proof {
                let rest = read_body(self.base, data) + last;
                let script = read_script(self.base, addr7, data);
                assert(script =~= lead + rest);
                transfer_cut(b0, *bus, lead, rest, r, k);
                assert(script.take(k) =~= lead.take(k));
                assert(filled(buf0, data, 0) =~= buf@);
            }
            return (r, Ghost(data), Ghost(k));
        }
        let ghost b1 = *bus;
        let (r, Ghost(data), Ghost(k)) = match n {
            1 => self.receive_one(bus, buf),
            2 => self.receive_two(bus, buf),
            _ => self.receive_many(bus, buf),
        };
        let ghost body = read_body(self.base, data);
        let ghost script = read_script(self.base, addr7, data);
        proof {
            transfer_after(b0, b1, *bus, lead, body, r, k);
            assert(lead.take(lead.len() as int) =~= lead);
            taken_append(lead, body.take(k));
            assert((lead + body).take(lead.len() + k) =~= lead + body.take(k));
            assert(script =~= (lead + body) + last);
        }
        if r.is_err() {
            proof {
                transfer_cut(b0, *bus, lead + body, last, r, lead.len() + k);
                assert(script.take(lead.len() + k) =~= (lead + body).take(lead.len() + k));
            }
            return (r, Ghost(data), Ghost(lead.len() + k));
        }
        let ghost b2 = *bus;
        self.set_ack(bus, true);
        proof {
            broadcast use taken_push;

            let ack = ctl0_step(self.base, CTL0_ACKEN, true);
            reg::ran_then(b0, b2, *bus, lead + body, ack);
            assert(script.take(script.len() as int) =~= (lead + body).push(ack));
            assert(body.take(k) =~= body);
        }
        (Ok(()), Ghost(data), Ghost(script.len() as int))
    }

    /// A read in which the data register returns `data` and `k` steps are performed.
    pub open spec fn took_with<B: Bus>(
        self,
        b0: B,
        b1: B,
        addr7: u8,
        buf0: Seq<u8>,
        buf1: Seq<u8>,
        fresh: bool,
        r: Result<(), I2cError>,
        data: Seq<u32>,
        k: int,
    ) -> bool {
        let script = read_script(self.at(), addr7, data);
        &&& data.len() == buf0.len()
        &&& self.guarded(b0, b1, fresh, script, r, k)
        &&& buf1 == if k == -1 {
            buf0
        } else {
            filled(buf0, data, taken(script.take(k)))
        }
    }

    /// What a read into a buffer comes to. An empty buffer asks for nothing.
    pub open spec fn took<B: Bus>(
        self,
        b0: B,
        b1: B,
        addr7: u8,
        buf0: Seq<u8>,
        buf1: Seq<u8>,
        fresh: bool,
        r: Result<(), I2cError>,
    ) -> bool {
        if buf0.len() == 0 {
            r == Ok::<(), I2cError>(()) && b1 == b0 && buf1 == buf0
        } else {
            exists|data: Seq<u32>, k: int|
                #[trigger] self.took_with(b0, b1, addr7, buf0, buf1, fresh, r, data, k)
        }
    }

    /// Fill `buf` with bytes of the device at `addr7`.
    ///
    /// A `fresh` read waits for an idle bus first; the repeated START after a write that kept the
    /// bus does not. The read ends with a STOP. A failed read recovers the block before its error
    /// is returned, and leaves the bytes it took in `buf`.
    pub fn read_bytes<B: Bus>(&self, bus: &mut B, addr7: u8, buf: &mut [u8], fresh: bool) -> (r:
        Result<(), I2cError>)
        ensures
            self.took(*old(bus), *final(bus), addr7, old(buf)@, final(buf)@, fresh, r),
    {
        let ghost buf0 = buf@;
        if buf.len() == 0 {
            return Ok(());
        }
        if fresh {
            match self.wait_bus_idle(bus) {
                Ok(()) => {},
                Err(e) => {
                    proof {
                        let data = Seq::new(buf0.len(), |j: int| 0u32);
                        let script = read_script(self.at(), addr7, data);
                        assert(self.guarded(*old(bus), *bus, fresh, script, Err(e), -1));
                        assert(self.took_with(
                            *old(bus),
                            *bus,
                            addr7,
                            buf0,
                            buf@,
                            fresh,
                            Err(e),
                            data,
                            -1,
                        ));
                    }
                    return Err(e);
                },
            }
        }
        let ghost m1 = *bus;
        let (r, Ghost(data), Ghost(k)) = self.read_inner(bus, addr7, buf);
        let ghost m2 = *bus;
        if r.is_err() {
            self.recover(bus);
        }
        proof {
            let script = read_script(self.at(), addr7, data);
            assert(transfer(m1, m2, script, r, k));
            assert(self.guarded(*old(bus), *bus, fresh, script, r, k));
            assert(self.took_with(*old(bus), *bus, addr7, buf0, buf@, fresh, r, data, k));
        }
        r
    }

    /// A fresh read.
    pub fn read<B: Bus>(&self, bus: &mut B, address: u8, buf: &mut [u8]) -> (r: Result<
        (),
        I2cError,
    >)
        ensures
            self.took(*old(bus), *final(bus), address, old(buf)@, final(buf)@, true, r),
    {
        self.read_bytes(bus, address, buf, true)
    }

    /// A fresh write with its STOP.
    pub fn write<B: Bus>(&self, bus: &mut B, address: u8, bytes: &[u8]) -> (r: Result<
        (),
        I2cError,
    >)
        ensures
            self.wrote(*old(bus), *final(bus), address, bytes@, true, true, r),
    {
        self.write_bytes(bus, address, bytes, true, true)
    }

    /// A fresh write without a STOP, and a read by repeated START. A failed write is not followed
    /// by the read.
    pub fn write_read<B: Bus>(
        &self,
        bus: &mut B,
        address: u8,
        bytes: &[u8],
        buf: &mut [u8],
    ) -> (r: Result<(), I2cError>)
        ensures
            (r is Err && final(buf)@ == old(buf)@ && self.wrote(
                *old(bus),
                *final(bus),
                address,
                bytes@,
                true,
                false,
                r,
            )) || exists|m: B, w: Result<(), I2cError>|
                {
                    &&& w is Ok
                    &&& #[trigger] self.wrote(*old(bus), m, address, bytes@, true, false, w)
                    &&& self.took(m, *final(bus), address, old(buf)@, final(buf)@, false, r)
                },
    {
        let w: Result<(), I2cError> = self.write_bytes(bus, address, bytes, true, false);
        if w.is_err() {
            return w;
        }
        let ghost m = *bus;
        let r = self.read_bytes(bus, address, buf, false);
        assert(self.wrote(*old(bus), m, address, bytes@, true, false, w));
        r
    }
}

// --- transactions -----------------------------------------------------------------------------

/// One operation of a transaction.
#[derive(Debug, PartialEq, Eq)]
pub enum Operation {
    /// Write these bytes.
    Write(Vec<u8>),
    /// Fill this buffer.
    Read(Vec<u8>),
}

/// Whether the operation in place `i` starts on a bus this side does not hold: the first one, and
/// one after a read, which ends with a STOP.
pub open spec fn starts_fresh(ops: Seq<Operation>, i: int) -> bool {
    i == 0 || ops[i - 1] is Read
}

impl I2c {
    /// What the operation in place `i` comes to, `ops0` and `ops1` being the operations before and
    /// after.
    pub open spec fn operated<B: Bus>(
        self,
        b0: B,
        b1: B,
        address: u8,
        ops0: Seq<Operation>,
        ops1: Seq<Operation>,
        i: int,
        r: Result<(), I2cError>,
    ) -> bool {
        match ops0[i] {
            Operation::Write(w) => {
                &&& ops1[i] == ops0[i]
                &&& self.wrote(
                    b0,
                    b1,
                    address,
                    w@,
                    starts_fresh(ops0, i),
                    i + 1 == ops0.len(),
                    r,
                )
            },
            Operation::Read(buf0) => {
                &&& ops1[i] matches Operation::Read(buf1)
                &&& self.took(b0, b1, address, buf0@, buf1@, starts_fresh(ops0, i), r)
            },
        }
    }

    /// The first `n` operations succeed, one after the other.
    pub open spec fn progressed<B: Bus>(
        self,
        b0: B,
        b1: B,
        address: u8,
        ops0: Seq<Operation>,
        ops1: Seq<Operation>,
        n: int,
    ) -> bool
        decreases n,
    {
        if n <= 0 {
            b0 == b1
        } else {
            exists|m: B, r: Result<(), I2cError>|
                {
                    &&& r is Ok
                    &&& self.progressed(b0, m, address, ops0, ops1, n - 1)
                    &&& #[trigger] self.operated(m, b1, address, ops0, ops1, n - 1, r)
                }
        }
    }

    proof fn progressed_local<B: Bus>(
        self,
        b0: B,
        b1: B,
        address: u8,
        ops0: Seq<Operation>,
        ops1: Seq<Operation>,
        ops2: Seq<Operation>,
        n: int,
    )
        requires
            self.progressed(b0, b1, address, ops0, ops1, n),
            forall|j: int| 0 <= j < n ==> ops1[j] == ops2[j],
        ensures
            self.progressed(b0, b1, address, ops0, ops2, n),
        decreases n,
    {
        if n > 0 {
            let (m, r) = choose|m: B, r: Result<(), I2cError>|
                {
                    &&& r is Ok
                    &&& self.progressed(b0, m, address, ops0, ops1, n - 1)
                    &&& #[trigger] self.operated(m, b1, address, ops0, ops1, n - 1, r)
                };
            self.progressed_local(b0, m, address, ops0, ops1, ops2, n - 1);
            assert(self.operated(m, b1, address, ops0, ops2, n - 1, r));
        }
    }

    /// What a transaction comes to: every operation succeeds, or the first that does not ends it
    /// and later ones are left alone.
    pub open spec fn transacted<B: Bus>(
        self,
        b0: B,
        b1: B,
        address: u8,
        ops0: Seq<Operation>,
        ops1: Seq<Operation>,
        r: Result<(), I2cError>,
    ) -> bool {
        &&& ops1.len() == ops0.len()
        &&& match r {
            Ok(()) => self.progressed(b0, b1, address, ops0, ops1, ops0.len() as int),
            Err(_) => exists|m: B, i: int|
                {
                    &&& 0 <= i < ops0.len()
                    &&& self.progressed(b0, m, address, ops0, ops1, i)
                    &&& #[trigger] self.operated(m, b1, address, ops0, ops1, i, r)
                    &&& forall|j: int| i < j < ops0.len() ==> ops1[j] == ops0[j]
                },
        }
    }

    /// Perform operations on one device as one transaction. A write keeps the bus for the next
    /// operation unless it is the last; a read always ends with a STOP.
    pub fn transaction<B: Bus>(
        &self,
        bus: &mut B,
        address: u8,
        operations: &mut Vec<Operation>,
    ) -> (r: Result<(), I2cError>)
        ensures
            self.transacted(*old(bus), *final(bus), address, old(operations)@, final(operations)@, r),
    {
        let ghost b0 = *bus;
        let ghost ops0 = operations@;
        let n: usize = operations.len();
        let mut fresh: bool = true;
        let mut i: usize = 0;
        while i < n
            invariant
                b0 == *old(bus),
                ops0 == old(operations)@,
                n == ops0.len(),
                operations@.len() == n,
                i <= n,
                i < n ==> fresh == starts_fresh(ops0, i as int),
                forall|j: int| i <= j < n ==> operations@[j] == ops0[j],
                self.progressed(b0, *bus, address, ops0, operations@, i as int),
            decreases n - i,
        {
            let ghost bm = *bus;
            let ghost ops1 = operations@;
            let is_last: bool = i + 1 == n;
            let r: Result<(), I2cError> = match &mut operations[i] {
                Operation::Write(w) => {
                    let r = self.write_bytes(bus, address, w.as_slice(), fresh, is_last);
                    fresh = false;
                    r
                },
                Operation::Read(buf) => {
                    let r = self.read_bytes(bus, address, buf.as_mut_slice(), fresh);
                    fresh = true;
                    r
                },
            };
            proof {
                self.progressed_local(b0, bm, address, ops0, ops1, operations@, i as int);
                assert(self.operated(bm, *bus, address, ops0, operations@, i as int, r));
            }
            if r.is_err() {
                return r;
            }
            proof {
                let k: int = i + 1;
                assert(self.operated(bm, *bus, address, ops0, operations@, k - 1, r));
                assert(self.progressed(b0, *bus, address, ops0, operations@, k));
            }
            i = i + 1;
        }
        Ok(())
    }
}

} // verus!
