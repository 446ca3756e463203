//! What holds of every transfer, whatever the addresses and the bytes.

use vstd::prelude::*;

use crate::i2c::{
    self, I2cTiming, CKCFG, CTL0, CTL0_ACKEN, CTL0_I2CEN, CTL0_POAP, CTL0_SMBEN, CTL0_STOP, CTL1,
    CTL1_I2CCLK, MASTER_OWN_ADDR, RT, SADDR0, STAT0, STAT0_ERRORS,
};
use crate::bits;
use crate::reg::{self, Step};

verus! {

/// What a script stores to the data register, which lies 0x10 into the block, in order.
pub open spec fn puts(script: Seq<Step>, base: u32) -> Seq<u32>
    decreases script.len(),
{
    if script.len() == 0 {
        Seq::empty()
    } else {
        let before = puts(script.drop_last(), base);
        match script.last() {
            Step::Store { addr, value } => if addr == reg::at(base, 0x10) {
                before.push(value)
            } else {
                before
            },
            _ => before,
        }
    }
}

broadcast proof fn puts_push(script: Seq<Step>, step: Step, base: u32)
    ensures
        #[trigger] puts(script.push(step), base) == (match step {
            Step::Store { addr, value } => if addr == reg::at(base, 0x10) {
                puts(script, base).push(value)
            } else {
                puts(script, base)
            },
            _ => puts(script, base),
        }),
{
    assert(script.push(step).drop_last() =~= script);
}

broadcast proof fn puts_empty(base: u32)
    ensures
        #[trigger] puts(Seq::<Step>::empty(), base) == Seq::<u32>::empty(),
{
}

proof fn puts_append(s1: Seq<Step>, s2: Seq<Step>, base: u32)
    ensures
        puts(s1 + s2, base) == puts(s1, base) + puts(s2, base),
    decreases s2.len(),
{
    if s2.len() == 0 {
        assert(s1 + s2 =~= s1);
        assert(puts(s1, base) + puts(s2, base) =~= puts(s1, base));
    } else {
        puts_append(s1, s2.drop_last(), base);
        assert((s1 + s2).drop_last() =~= s1 + s2.drop_last());
        match s2.last() {
            Step::Store { addr, value } => {
                assert(puts(s1, base) + puts(s2.drop_last(), base).push(value) =~= (puts(s1, base)
                    + puts(s2.drop_last(), base)).push(value));
            },
            _ => {},
        }
    }
}

proof fn bytes_put(base: u32, bytes: Seq<u8>)
    ensures
        puts(i2c::bytes_script(base, bytes), base) == bytes.map_values(|b: u8| b as u32),
    decreases bytes.len(),
{
    broadcast use puts_push, puts_empty;

    if bytes.len() > 0 {
        bytes_put(base, bytes.drop_last());
        assert(bytes.map_values(|b: u8| b as u32) =~= bytes.drop_last().map_values(
            |b: u8| b as u32,
        ).push(bytes.last() as u32));
    } else {
        assert(bytes.map_values(|b: u8| b as u32) =~= Seq::empty());
    }
}

/// A write puts out twice the address, which is the address with the direction bit clear, and then
/// every byte, in order, and nothing else. It takes nothing.
pub proof fn law_write_goes_out_in_order(base: u32, addr7: u8, bytes: Seq<u8>, stop: bool)
    ensures
        puts(i2c::write_script(base, addr7, bytes, stop), base) == seq![
            (2 * addr7) as u32,
        ] + bytes.map_values(|b: u8| b as u32),
        i2c::taken(i2c::write_script(base, addr7, bytes, stop)) == 0,
{
    broadcast use {puts_push, puts_empty, i2c::taken_push, i2c::taken_empty};

    let head = i2c::write_head(base, addr7);
    let body = i2c::write_body(base, bytes);
    bytes_put(base, bytes);
    bytes_take_nothing(base, bytes);
    puts_append(head, body, base);
    i2c::taken_append(head, body);
    bits::nibbles(addr7);
    assert(puts(head, base) =~= seq![(2 * addr7) as u32]);
    if bytes.len() == 0 {
        assert(bytes.map_values(|b: u8| b as u32) =~= Seq::empty());
    }
}

proof fn bytes_take_nothing(base: u32, bytes: Seq<u8>)
    ensures
        i2c::taken(i2c::bytes_script(base, bytes)) == 0,
    decreases bytes.len(),
{
    broadcast use {i2c::taken_push, i2c::taken_empty};

    if bytes.len() > 0 {
        bytes_take_nothing(base, bytes.drop_last());
    }
}

proof fn burst_puts_nothing(base: u32, data: Seq<u32>, x: u32, w: u32)
    ensures
        puts(i2c::burst(base, data), base) == Seq::<u32>::empty(),
        reg::word_after(i2c::burst(base, data), x, w) == w,
    decreases data.len(),
{
    broadcast use {puts_push, puts_empty, reg::group_after};

    if data.len() > 0 {
        burst_puts_nothing(base, data.drop_last(), x, w);
    }
}

/// A read puts out twice the address and one, which is the address with the direction bit set, and
/// nothing else, and takes exactly as many bytes as the buffer holds.
pub proof fn law_read_takes_what_it_asked_for(base: u32, addr7: u8, data: Seq<u32>)
    requires
        data.len() > 0,
    ensures
        puts(i2c::read_script(base, addr7, data), base) == seq![(2 * addr7 + 1) as u32],
        i2c::taken(i2c::read_script(base, addr7, data)) == data.len(),
{
    broadcast use {puts_push, puts_empty, i2c::taken_push, i2c::taken_empty};

    let n = data.len() as int;
    let lead = i2c::read_lead(base, addr7, n);
    let body = i2c::read_body(base, data);
    puts_append(lead, body, base);
    i2c::taken_append(lead, body);
    bits::nibbles(addr7);
    assert(puts(lead, base) =~= seq![(2 * addr7 + 1) as u32]);
    if n >= 3 {
        let mid = i2c::burst(base, data.take(n - 3));
        let close = i2c::read_close(base, data[n - 3], data[n - 2], data[n - 1]);
        puts_append(i2c::read_addressed(base), mid, base);
        puts_append(i2c::read_addressed(base) + mid, close, base);
        i2c::taken_append(i2c::read_addressed(base), mid);
        i2c::taken_append(i2c::read_addressed(base) + mid, close);
        burst_puts_nothing(base, data.take(n - 3), 0, 0);
        i2c::burst_prefix(base, data.take(n - 3), 0);
    }
    assert(puts(body, base) =~= Seq::empty());
}

/// A read leaves a STOP requested, the acknowledge on for the next transfer, and the place of the
/// acknowledge as it was, or back on the first byte where it had been moved.
pub proof fn law_read_restores_the_posture(base: u32, addr7: u8, data: Seq<u32>, w: u32)
    requires
        data.len() > 0,
    ensures
        ({
            let ctl0 = reg::word_after(
                i2c::read_script(base, addr7, data),
                reg::at(base, CTL0),
                w,
            );
            &&& ctl0 & CTL0_STOP == CTL0_STOP
            &&& ctl0 & CTL0_ACKEN == CTL0_ACKEN
            &&& ctl0 & CTL0_POAP == (if data.len() == 2 {
                0
            } else {
                w & CTL0_POAP
            })
            &&& ctl0 & CTL0_I2CEN == w & CTL0_I2CEN
        }),
{
    broadcast use reg::group_after;

    let n = data.len() as int;
    let x = reg::at(base, CTL0);
    let lead = i2c::read_lead(base, addr7, n);
    let body = i2c::read_body(base, data);
    reg::word_after_append(lead, body, x, w);
    if n >= 3 {
        let u = reg::word_after(lead, x, w);
        let mid = i2c::burst(base, data.take(n - 3));
        let close = i2c::read_close(base, data[n - 3], data[n - 2], data[n - 1]);
        reg::word_after_append(i2c::read_addressed(base), mid, x, u);
        reg::word_after_append(i2c::read_addressed(base) + mid, close, x, u);
        burst_puts_nothing(base, data.take(n - 3), x, u);
    }
    bits::read_posture(w);
}

/// A write that is to end ends with a STOP requested; one that is not leaves the request as it
/// was, for a repeated START.
pub proof fn law_write_stops_if_asked(base: u32, addr7: u8, bytes: Seq<u8>, w: u32)
    ensures
        reg::word_after(
            i2c::write_script(base, addr7, bytes, true),
            reg::at(base, CTL0),
            w,
        ) & CTL0_STOP == CTL0_STOP,
        reg::word_after(
            i2c::write_script(base, addr7, bytes, false),
            reg::at(base, CTL0),
            w,
        ) & CTL0_STOP == w & CTL0_STOP,
{
    broadcast use reg::group_after;

    let x = reg::at(base, CTL0);
    let head = i2c::write_head(base, addr7);
    let body = i2c::write_body(base, bytes);
    reg::word_after_append(head, body, x, w);
    bytes_leave_control(base, bytes, x, reg::word_after(head, x, w));
    bits::write_posture(w);
}

proof fn bytes_leave_control(base: u32, bytes: Seq<u8>, x: u32, w: u32)
    requires
        x == reg::at(base, CTL0),
    ensures
        reg::word_after(i2c::bytes_script(base, bytes), x, w) == w,
    decreases bytes.len(),
{
    broadcast use reg::group_after;

    if bytes.len() > 0 {
        bytes_leave_control(base, bytes.drop_last(), x, w);
    }
}

/// A block that was brought up: its timing and own address are set, it is on, in I2C mode, and
/// acknowledges; no START or STOP is requested that was not before.
pub proof fn law_bring_up_registers(base: u32, t: I2cTiming, w: u32)
    ensures
        ({
            let script = i2c::init_script(base, t);
            let ctl0 = reg::word_after(script, reg::at(base, CTL0), w);
            &&& reg::word_after(script, reg::at(base, CTL1), w) & CTL1_I2CCLK == t.i2cclk
                & CTL1_I2CCLK
            &&& reg::word_after(script, reg::at(base, RT), w) == t.rt
            &&& reg::word_after(script, reg::at(base, CKCFG), w) == t.ckcfg
            &&& reg::word_after(script, reg::at(base, SADDR0), w) == MASTER_OWN_ADDR
            &&& ctl0 & CTL0_I2CEN == CTL0_I2CEN
            &&& ctl0 & CTL0_ACKEN == CTL0_ACKEN
            &&& ctl0 & CTL0_SMBEN == 0
            &&& ctl0 & 0x300 == w & 0x300
        }),
{
    broadcast use reg::group_after;

    bits::merge_fields(w, CTL1_I2CCLK, t.i2cclk, 0);
    bits::init_posture(w);
}

/// A reset block is brought up anew: no request is left pending, and the timing is set again.
pub proof fn law_reset_clears_requests(base: u32, t: I2cTiming, w: u32)
    ensures
        ({
            let script = i2c::reinit_script(base, t);
            &&& reg::word_after(script, reg::at(base, CTL0), w) == CTL0_I2CEN | CTL0_ACKEN
            &&& reg::word_after(script, reg::at(base, CTL0), w) & 0x300 == 0
            &&& reg::word_after(script, reg::at(base, RT), w) == t.rt
            &&& reg::word_after(script, reg::at(base, CKCFG), w) == t.ckcfg
        }),
{
    broadcast use reg::group_after;

    let reset = Seq::empty().push(
        Step::Store { addr: reg::at(base, CTL0), value: i2c::CTL0_SRESET },
    ).push(Step::Store { addr: reg::at(base, CTL0), value: 0 });
    let init = i2c::init_script(base, t);
    reg::word_after_append(reset, init, reg::at(base, CTL0), w);
    reg::word_after_append(reset, init, reg::at(base, RT), w);
    reg::word_after_append(reset, init, reg::at(base, CKCFG), w);
    bits::init_posture(0);
}

/// Whatever state a failed transfer left, recovery leaves the error flags clear, the acknowledge
/// on and its place on the first byte.
pub proof fn law_recovery_restores_the_posture(
    base: u32,
    t: I2cTiming,
    stat0: u32,
    stat1: u32,
    stat1_after: u32,
    ctl0_after: u32,
    w: u32,
)
    ensures
        ({
            let script = i2c::recover_script(base, t, stat0, stat1, stat1_after, ctl0_after);
            let ctl0 = reg::word_after(script, reg::at(base, CTL0), w);
            &&& reg::word_after(script, reg::at(base, STAT0), w) & STAT0_ERRORS == 0
            &&& ctl0 & CTL0_ACKEN == CTL0_ACKEN
            &&& ctl0 & CTL0_POAP == 0
        }),
{
    broadcast use reg::group_after;

    let x = reg::at(base, STAT0);
    let looked = i2c::release_script(base, stat0, stat1).push(
        Step::Load { addr: reg::at(base, i2c::STAT1), value: stat1_after },
    ).push(Step::Load { addr: reg::at(base, CTL0), value: ctl0_after });
    let anew = i2c::reinit_script(base, t);
    let reset = Seq::empty().push(
        Step::Store { addr: reg::at(base, CTL0), value: i2c::CTL0_SRESET },
    ).push(Step::Store { addr: reg::at(base, CTL0), value: 0 });
    let flags = reg::word_after(looked, x, w);
    reg::word_after_append(looked, anew, x, w);
    reg::word_after_append(reset, i2c::init_script(base, t), x, flags);
    let ready = if i2c::wedged(stat1_after, ctl0_after) {
        looked + anew
    } else {
        looked
    };
    let u = reg::word_after(ready, reg::at(base, CTL0), w);
    bits::recovered_posture(stat0, u);
}

} // verus!
