//! What goes over the wire: the bytes a device sees and gives, read off the log of the bus, and the
//! order in which the block is asked for them.

use vstd::prelude::*;

use crate::bits;
use crate::error::I2cError;
use crate::i2c::{self, I2c, I2cTiming, Operation};
use crate::reg::{self, Access, Bus, Step, Want};
use crate::trace;

verus! {

/// The data register, 0x10 into the block.
pub open spec fn data_register(dev: I2c) -> u32 {
    reg::at(dev.at(), 0x10)
}

/// Bytes as they are stored to the data register.
pub open spec fn as_words(bytes: Seq<u8>) -> Seq<u32> {
    bytes.map_values(|b: u8| b as u32)
}

proof fn init_is_plain(base: u32, t: I2cTiming)
    ensures
        trace::all_plain(i2c::init_script(base, t), reg::at(base, 0x10)),
        trace::stores_of(i2c::init_script(base, t), reg::at(base, 0x10)) == Seq::<u32>::empty(),
        trace::loads_of(i2c::init_script(base, t), reg::at(base, 0x10)) == Seq::<u32>::empty(),
{
    broadcast use {trace::group_plain, trace::group_of};

}

proof fn recover_is_plain(base: u32, t: I2cTiming, s: u32, m: u32, b: u32, c: u32)
    ensures
        ({
            let script = i2c::recover_script(base, t, s, m, b, c);
            &&& trace::all_plain(script, reg::at(base, 0x10))
            &&& trace::stores_of(script, reg::at(base, 0x10)) == Seq::<u32>::empty()
            &&& trace::loads_of(script, reg::at(base, 0x10)) == Seq::<u32>::empty()
        }),
{
    broadcast use {trace::group_plain, trace::group_of};

    let x = reg::at(base, 0x10);
    let looked = i2c::release_script(base, s, m).push(
        Step::Load { addr: reg::at(base, i2c::STAT1), value: b },
    ).push(Step::Load { addr: reg::at(base, i2c::CTL0), value: c });
    let reset = Seq::empty().push(
        Step::Store { addr: reg::at(base, i2c::CTL0), value: i2c::CTL0_SRESET },
    ).push(Step::Store { addr: reg::at(base, i2c::CTL0), value: 0 });
    init_is_plain(base, t);
    trace::of_append(reset, i2c::init_script(base, t), x);
    let anew = i2c::reinit_script(base, t);
    assert(trace::stores_of(anew, x) =~= Seq::empty());
    assert(trace::loads_of(anew, x) =~= Seq::empty());
    trace::of_append(looked, anew, x);
    assert(trace::stores_of(looked + anew, x) =~= Seq::empty());
    assert(trace::loads_of(looked + anew, x) =~= Seq::empty());
}

proof fn recovered_traces<B: Bus>(b0: B, b1: B, base: u32, t: I2cTiming)
    requires
        i2c::recovered(b0, b1, base, t),
    ensures
        reg::steady(b0, b1),
        trace::stored(b1.log(), reg::at(base, 0x10)) == trace::stored(
            b0.log(),
            reg::at(base, 0x10),
        ),
        trace::loaded(b1.log(), reg::at(base, 0x10)) == trace::loaded(
            b0.log(),
            reg::at(base, 0x10),
        ),
{
    let x = reg::at(base, 0x10);
    let (s, m, b, c) = choose|s: u32, m: u32, b: u32, c: u32|
        reg::ran(b0, b1, #[trigger] i2c::recover_script(base, t, s, m, b, c));
    recover_is_plain(base, t, s, m, b, c);
    trace::ran_traces(b0, b1, i2c::recover_script(base, t, s, m, b, c), x);
    assert(trace::stored(b1.log(), x) =~= trace::stored(b0.log(), x));
    assert(trace::loaded(b1.log(), x) =~= trace::loaded(b0.log(), x));
}

proof fn idled_traces<B: Bus>(dev: I2c, b0: B, b1: B, r: Result<(), I2cError>)
    requires
        dev.idled(b0, b1, r),
    ensures
        reg::steady(b0, b1),
        trace::stored(b1.log(), data_register(dev)) == trace::stored(b0.log(), data_register(dev)),
        trace::loaded(b1.log(), data_register(dev)) == trace::loaded(b0.log(), data_register(dev)),
{
    broadcast use {trace::group_plain, trace::group_of};

    let x = data_register(dev);
    let base = dev.at();
    let idle = i2c::idle_step(base);
    if r is Ok && reg::ran(b0, b1, seq![idle]) {
        assert(seq![idle] =~= Seq::<Step>::empty().push(idle));
        trace::ran_traces(b0, b1, seq![idle], x);
    } else {
        let (m1, m2) = choose|m1: B, m2: B|
            {
                let v = reg::last_load(b1.log());
                &&& #[trigger] reg::stuck(b0, m1, idle)
                &&& #[trigger] i2c::recovered(m1, m2, base, dev.tuning())
                &&& reg::ran(
                    m2,
                    b1,
                    seq![Step::Load { addr: reg::at(base, i2c::STAT1), value: v }],
                )
                &&& r == (if v & i2c::STAT1_I2CBSY == 0 {
                    Ok::<(), I2cError>(())
                } else {
                    Err(I2cError::Bus)
                })
            };
        let look = Step::Load {
            addr: reg::at(base, i2c::STAT1),
            value: reg::last_load(b1.log()),
        };
        trace::stuck_traces(b0, m1, idle, x);
        recovered_traces(m1, m2, base, dev.tuning());
        assert(seq![look] =~= Seq::<Step>::empty().push(look));
        trace::ran_traces(m2, b1, seq![look], x);
        reg::steady_trans(b0, m1, m2);
        reg::steady_trans(b0, m2, b1);
    }
    assert(trace::stored(b1.log(), x) =~= trace::stored(b0.log(), x));
    assert(trace::loaded(b1.log(), x) =~= trace::loaded(b0.log(), x));
}

/// What a transfer that succeeds leaves of the data register is what its script does with it.
proof fn guarded_traces<B: Bus>(dev: I2c, b0: B, b1: B, fresh: bool, script: Seq<Step>, k: int)
    requires
        dev.guarded(b0, b1, fresh, script, Ok::<(), I2cError>(()), k),
        trace::all_plain(script, data_register(dev)),
    ensures
        reg::steady(b0, b1),
        k == script.len(),
        trace::stored(b1.log(), data_register(dev)) == trace::stored(b0.log(), data_register(dev))
            + trace::stores_of(script, data_register(dev)),
        trace::loaded(b1.log(), data_register(dev)) == trace::loaded(b0.log(), data_register(dev))
            + trace::loads_of(script, data_register(dev)),
{
    let r = Ok::<(), I2cError>(());
    let (m1, m2) = choose|m1: B, m2: B|
        {
            &&& if fresh {
                dev.idled(b0, m1, Ok::<(), I2cError>(()))
            } else {
                m1 == b0
            }
            &&& #[trigger] i2c::transfer(m1, m2, script, r, k)
            &&& if r is Ok {
                b1 == m2
            } else {
                i2c::recovered(m2, b1, dev.at(), dev.tuning())
            }
        };
    if fresh {
        idled_traces(dev, b0, m1, r);
    } else {
        reg::steady_refl(b0);
    }
    trace::ran_traces(m1, b1, script, data_register(dev));
    reg::steady_trans(b0, m1, b1);
}

proof fn bytes_trace(base: u32, bytes: Seq<u8>)
    ensures
        ({
            let script = i2c::bytes_script(base, bytes);
            let x = reg::at(base, 0x10);
            &&& trace::all_plain(script, x)
            &&& trace::stores_of(script, x) == as_words(bytes)
            &&& trace::loads_of(script, x) == Seq::<u32>::empty()
        }),
    decreases bytes.len(),
{
    broadcast use {trace::group_plain, trace::group_of};

    if bytes.len() > 0 {
        bytes_trace(base, bytes.drop_last());
        assert(as_words(bytes) =~= as_words(bytes.drop_last()).push(bytes.last() as u32));
    } else {
        assert(as_words(bytes) =~= Seq::empty());
    }
}

proof fn write_trace(base: u32, addr7: u8, bytes: Seq<u8>, stop: bool)
    ensures
        ({
            let script = i2c::write_script(base, addr7, bytes, stop);
            let x = reg::at(base, 0x10);
            &&& trace::all_plain(script, x)
            &&& trace::stores_of(script, x) == seq![(2 * addr7) as u32] + as_words(bytes)
            &&& trace::loads_of(script, x) == Seq::<u32>::empty()
        }),
{
    broadcast use {trace::group_plain, trace::group_of};

    let x = reg::at(base, 0x10);
    let head = i2c::write_head(base, addr7);
    let body = i2c::write_body(base, bytes);
    bits::nibbles(addr7);
    bytes_trace(base, bytes);
    trace::of_append(head, body, x);
    assert(trace::stores_of(head, x) =~= seq![(2 * addr7) as u32]);
    assert(trace::loads_of(head + body, x) =~= Seq::empty());
    if bytes.len() == 0 {
        assert(as_words(bytes) =~= Seq::empty());
    }
    assert(trace::stores_of(head + body, x) =~= seq![(2 * addr7) as u32] + as_words(bytes));
}

/// A write that succeeds has put on the wire twice the address, then the bytes, in order, and
/// nothing else; it has taken nothing.
pub proof fn law_write_reaches_the_wire<B: Bus>(
    dev: I2c,
    b0: B,
    b1: B,
    addr7: u8,
    bytes: Seq<u8>,
    fresh: bool,
    stop: bool,
)
    requires
        dev.wrote(b0, b1, addr7, bytes, fresh, stop, Ok::<(), I2cError>(())),
    ensures
        trace::stored(b1.log(), data_register(dev)) == trace::stored(b0.log(), data_register(dev))
            + (seq![(2 * addr7) as u32] + as_words(bytes)),
        trace::loaded(b1.log(), data_register(dev)) == trace::loaded(b0.log(), data_register(dev)),
{
    let script = i2c::write_script(dev.at(), addr7, bytes, stop);
    let k = choose|k: int|
        #[trigger] dev.guarded(b0, b1, fresh, script, Ok::<(), I2cError>(()), k);
    write_trace(dev.at(), addr7, bytes, stop);
    guarded_traces(dev, b0, b1, fresh, script, k);
    assert(trace::loaded(b1.log(), data_register(dev)) =~= trace::loaded(
        b0.log(),
        data_register(dev),
    ));
}

proof fn burst_trace(base: u32, data: Seq<u32>)
    ensures
        ({
            let script = i2c::burst(base, data);
            let x = reg::at(base, 0x10);
            &&& trace::all_plain(script, x)
            &&& trace::stores_of(script, x) == Seq::<u32>::empty()
            &&& trace::loads_of(script, x) == data
        }),
    decreases data.len(),
{
    broadcast use {trace::group_plain, trace::group_of};

    if data.len() > 0 {
        burst_trace(base, data.drop_last());
        assert(data =~= data.drop_last().push(data.last()));
    } else {
        assert(data =~= Seq::empty());
    }
}

proof fn read_trace(base: u32, addr7: u8, data: Seq<u32>)
    requires
        data.len() > 0,
    ensures
        ({
            let script = i2c::read_script(base, addr7, data);
            let x = reg::at(base, 0x10);
            &&& trace::all_plain(script, x)
            &&& trace::stores_of(script, x) == seq![(2 * addr7 + 1) as u32]
            &&& trace::loads_of(script, x) == data
        }),
{
    broadcast use {trace::group_plain, trace::group_of};

    let x = reg::at(base, 0x10);
    let n = data.len() as int;
    let lead = i2c::read_lead(base, addr7, n);
    let body = i2c::read_body(base, data);
    bits::nibbles(addr7);
    trace::of_append(lead, body, x);
    assert(trace::stores_of(lead, x) =~= seq![(2 * addr7 + 1) as u32]);
    assert(trace::loads_of(lead, x) =~= Seq::empty());
    if n >= 3 {
        let open = i2c::read_addressed(base);
        let mid = i2c::burst(base, data.take(n - 3));
        let close = i2c::read_close(base, data[n - 3], data[n - 2], data[n - 1]);
        burst_trace(base, data.take(n - 3));
        trace::of_append(open, mid, x);
        trace::of_append(open + mid, close, x);
        assert(trace::stores_of(body, x) =~= Seq::empty());
        assert(trace::loads_of(body, x) =~= data);
    } else {
        assert(trace::stores_of(body, x) =~= Seq::empty());
        assert(trace::loads_of(body, x) =~= data);
    }
    assert(trace::stores_of(lead + body, x) =~= seq![(2 * addr7 + 1) as u32]);
    assert(trace::loads_of(lead + body, x) =~= data);
}

/// A read that succeeds has put on the wire twice the address and one, and nothing else; it has
/// taken as many words from the data register as the buffer has places, and the buffer holds their
/// low bytes, in order.
pub proof fn law_read_comes_from_the_wire<B: Bus>(
    dev: I2c,
    b0: B,
    b1: B,
    addr7: u8,
    buf0: Seq<u8>,
    buf1: Seq<u8>,
    fresh: bool,
)
    requires
        buf0.len() > 0,
        dev.took(b0, b1, addr7, buf0, buf1, fresh, Ok::<(), I2cError>(())),
    ensures
        trace::stored(b1.log(), data_register(dev)) == trace::stored(b0.log(), data_register(dev))
            + seq![(2 * addr7 + 1) as u32],
        buf1.len() == buf0.len(),
        trace::loaded(b1.log(), data_register(dev)).len() == trace::loaded(
            b0.log(),
            data_register(dev),
        ).len() + buf0.len(),
        forall|i: int|
            0 <= i < buf0.len() ==> #[trigger] buf1[i] == (trace::loaded(
                b1.log(),
                data_register(dev),
            )[trace::loaded(b0.log(), data_register(dev)).len() + i] & 0xFF) as u8,
{
    let r = Ok::<(), I2cError>(());
    let (data, k) = choose|data: Seq<u32>, k: int|
        #[trigger] dev.took_with(b0, b1, addr7, buf0, buf1, fresh, r, data, k);
    let script = i2c::read_script(dev.at(), addr7, data);
    read_trace(dev.at(), addr7, data);
    guarded_traces(dev, b0, b1, fresh, script, k);
    crate::i2c::laws::law_read_takes_what_it_asked_for(dev.at(), addr7, data);
    assert(script.take(k) =~= script);
}

/// Of a script that loads nothing but the data register, the first steps load the first words.
proof fn first_loads(script: Seq<Step>, k: int, x: u32)
    requires
        0 <= k <= script.len(),
        forall|i: int|
            0 <= i < script.len() ==> (#[trigger] script[i] matches Step::Load { addr, .. } ==> addr
                == x),
    ensures
        trace::loads_of(script.take(k), x).len() == i2c::taken(script.take(k)),
        trace::loads_of(script, x).len() == i2c::taken(script),
        i2c::taken(script.take(k)) <= i2c::taken(script),
        trace::loads_of(script.take(k), x) == trace::loads_of(script, x).take(
            i2c::taken(script.take(k)) as int,
        ),
    decreases script.len(),
{
    if script.len() == 0 {
        assert(script.take(k) =~= script);
        assert(trace::loads_of(script, x).take(0) =~= trace::loads_of(script, x));
    } else {
        let rest = script.drop_last();
        assert forall|i: int| 0 <= i < rest.len() implies (
        #[trigger] rest[i] matches Step::Load { addr, .. } ==> addr == x) by {
            assert(rest[i] == script[i]);
        }
        assert(script[script.len() - 1] == script.last());
        if k == script.len() {
            first_loads(rest, rest.len() as int, x);
            assert(script.take(k) =~= script);
            let all = trace::loads_of(script, x);
            assert(all.take(all.len() as int) =~= all);
        } else {
            first_loads(rest, k, x);
            assert(script.take(k) =~= rest.take(k));
            let g = i2c::taken(script.take(k)) as int;
            assert(trace::loads_of(script, x).take(g) =~= trace::loads_of(rest, x).take(g));
        }
    }
}

proof fn read_loads_data_only(base: u32, addr7: u8, data: Seq<u32>)
    requires
        data.len() > 0,
    ensures
        forall|i: int|
            0 <= i < i2c::read_script(base, addr7, data).len() ==> (#[trigger] i2c::read_script(
                base,
                addr7,
                data,
            )[i] matches Step::Load { addr, .. } ==> addr == reg::at(base, 0x10)),
{
    let n = data.len() as int;
    if n == 1 {
        assert(data =~= seq![data[0]]);
        crate::i2c::protocol::law_read_one_protocol(base, addr7, data[0]);
    } else if n == 2 {
        assert(data =~= seq![data[0], data[1]]);
        crate::i2c::protocol::law_read_two_protocol(base, addr7, data[0], data[1]);
    } else {
        crate::i2c::protocol::law_read_many_protocol(base, addr7, data);
        let s = i2c::read_script(base, addr7, data);
        let m = 7 + 2 * (n - 3);
        assert forall|i: int| 0 <= i < s.len() implies (
        #[trigger] s[i] matches Step::Load { addr, .. } ==> addr == reg::at(base, 0x10)) by {
            if 7 <= i < m {
                let j = (i - 7) / 2;
                assert(s[7 + 2 * j] == crate::i2c::protocol::waits(base, 0x40));
                assert(i == 7 + 2 * j || i == 8 + 2 * j);
            }
        }
    }
}

/// A read that fails leaves in the buffer the low bytes of what it took before it failed, in order,
/// and the rest of the buffer as it was.
pub proof fn law_failed_read_keeps_the_rest<B: Bus>(
    dev: I2c,
    b0: B,
    b1: B,
    addr7: u8,
    buf0: Seq<u8>,
    buf1: Seq<u8>,
    fresh: bool,
    e: I2cError,
)
    requires
        dev.took(b0, b1, addr7, buf0, buf1, fresh, Err::<(), _>(e)),
    ensures
        ({
            let before = trace::loaded(b0.log(), data_register(dev));
            let after = trace::loaded(b1.log(), data_register(dev));
            let got = after.len() - before.len();
            &&& 0 <= got <= buf0.len() == buf1.len()
            &&& forall|i: int|
                0 <= i < buf0.len() ==> #[trigger] buf1[i] == (if i < got {
                    (after[before.len() + i] & 0xFF) as u8
                } else {
                    buf0[i]
                })
        }),
{
    let r = Err::<(), _>(e);
    let x = data_register(dev);
    let (data, k) = choose|data: Seq<u32>, k: int|
        #[trigger] dev.took_with(b0, b1, addr7, buf0, buf1, fresh, r, data, k);
    let script = i2c::read_script(dev.at(), addr7, data);
    if fresh && k == -1 && dev.idled(b0, b1, r) {
        idled_traces(dev, b0, b1, r);
    } else {
        let (m1, m2) = choose|m1: B, m2: B|
            {
                &&& if fresh {
                    dev.idled(b0, m1, Ok::<(), I2cError>(()))
                } else {
                    m1 == b0
                }
                &&& #[trigger] i2c::transfer(m1, m2, script, r, k)
                &&& if r is Ok {
                    b1 == m2
                } else {
                    i2c::recovered(m2, b1, dev.at(), dev.tuning())
                }
            };
        if fresh {
            idled_traces(dev, b0, m1, Ok::<(), I2cError>(()));
        }
        recovered_traces(m2, b1, dev.at(), dev.tuning());
        let m = choose|m: B|
            reg::ran(m1, m, script.take(k)) && #[trigger] reg::stuck(m, m2, script[k]);
        read_trace(dev.at(), addr7, data);
        read_loads_data_only(dev.at(), addr7, data);
        first_loads(script, k, x);
        let part = script.take(k);
        assert(trace::all_plain(part, x)) by {
            assert forall|i: int| 0 <= i < part.len() implies trace::plain(#[trigger] part[i], x) by {
                assert(part[i] == script[i]);
            }
        }
        trace::ran_traces(m1, m, part, x);
        assert(trace::plain(script[k], x));
        trace::stuck_traces(m, m2, script[k], x);
    }
}

/// What the first `n` operations of a transaction put on the wire: a write twice the address and
/// its bytes, a read twice the address and one, and nothing where it has no place for a byte.
pub open spec fn outgoing(address: u8, ops: Seq<Operation>, n: int) -> Seq<u32>
    decreases n,
{
    if n <= 0 {
        Seq::empty()
    } else {
        outgoing(address, ops, n - 1) + match ops[n - 1] {
            Operation::Write(w) => seq![(2 * address) as u32] + as_words(w@),
            Operation::Read(buf) => if buf@.len() == 0 {
                Seq::empty()
            } else {
                seq![(2 * address + 1) as u32]
            },
        }
    }
}

proof fn progressed_traces<B: Bus>(
    dev: I2c,
    b0: B,
    b1: B,
    address: u8,
    ops0: Seq<Operation>,
    ops1: Seq<Operation>,
    n: int,
)
    requires
        dev.progressed(b0, b1, address, ops0, ops1, n),
    ensures
        trace::stored(b1.log(), data_register(dev)) == trace::stored(b0.log(), data_register(dev))
            + outgoing(address, ops0, n),
    decreases n,
{
    let x = data_register(dev);
    if n > 0 {
        let (m, r) = choose|m: B, r: Result<(), I2cError>|
            {
                &&& r is Ok
                &&& dev.progressed(b0, m, address, ops0, ops1, n - 1)
                &&& #[trigger] dev.operated(m, b1, address, ops0, ops1, n - 1, r)
            };
        progressed_traces(dev, b0, m, address, ops0, ops1, n - 1);
        law_operation_of_a_transaction(dev, m, b1, address, ops0, ops1, n - 1, r);
        let fresh = n == 1 || ops0[n - 2] is Read;
        assert(r == Ok::<(), I2cError>(())) by {
            assert(r->Ok_0 == ());
        }
        match ops0[n - 1] {
            Operation::Write(w) => {
                law_write_reaches_the_wire(dev, m, b1, address, w@, fresh, n == ops0.len());
            },
            Operation::Read(buf0) => {
                if buf0@.len() > 0 {
                    let buf1 = ops1[n - 1]->Read_0;
                    law_read_comes_from_the_wire(dev, m, b1, address, buf0@, buf1@, fresh);
                }
            },
        }
        assert(trace::stored(b1.log(), x) =~= trace::stored(b0.log(), x) + outgoing(
            address,
            ops0,
            n,
        ));
    } else {
        assert(trace::stored(b1.log(), x) =~= trace::stored(b0.log(), x) + outgoing(
            address,
            ops0,
            n,
        ));
    }
}

/// One operation of a transaction is a transfer of its own: it waits for an idle bus if it is the
/// first or follows a read, and a write stops if it is the last.
pub proof fn law_operation_of_a_transaction<B: Bus>(
    dev: I2c,
    b0: B,
    b1: B,
    address: u8,
    ops0: Seq<Operation>,
    ops1: Seq<Operation>,
    i: int,
    r: Result<(), I2cError>,
)
    requires
        dev.operated(b0, b1, address, ops0, ops1, i, r),
    ensures
        match ops0[i] {
            Operation::Write(w) => ops1[i] == ops0[i] && dev.wrote(
                b0,
                b1,
                address,
                w@,
                i == 0 || ops0[i - 1] is Read,
                i == ops0.len() - 1,
                r,
            ),
            Operation::Read(buf0) => ops1[i] matches Operation::Read(buf1) && dev.took(
                b0,
                b1,
                address,
                buf0@,
                buf1@,
                i == 0 || ops0[i - 1] is Read,
                r,
            ),
        },
{
}

/// A transaction that succeeds has put on the wire what its operations have to say, one after the
/// other and nothing else.
pub proof fn law_transaction_goes_out_in_order<B: Bus>(
    dev: I2c,
    b0: B,
    b1: B,
    address: u8,
    ops0: Seq<Operation>,
    ops1: Seq<Operation>,
)
    requires
        dev.transacted(b0, b1, address, ops0, ops1, Ok::<(), I2cError>(())),
    ensures
        trace::stored(b1.log(), data_register(dev)) == trace::stored(b0.log(), data_register(dev))
            + outgoing(address, ops0, ops0.len() as int),
{
    progressed_traces(dev, b0, b1, address, ops0, ops1, ops0.len() as int);
}

} // verus!
