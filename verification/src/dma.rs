//! The DMA channels that receive from USARTs.
//!
//! A channel fills a ring: it starts over when it reaches the end, and tells so by an interrupt.
//! The interrupt may be shared with another channel; only the flags of one's own are looked at and
//! cleared. Counting the times it started over lets a reader notice that it was overtaken.

use vstd::prelude::*;

use crate::bits;
use crate::chip::Chip;
use crate::descriptor::IrqLayout;
use crate::reg::{self, Bus, Reg32, Step};

verus! {

pub const DMA0_BASE: u32 = 0x4002_0000;

/// Interrupt flags, four for each channel: any, full transfer, half transfer, error.
pub const DMA_INTF: u32 = 0x00;

/// Clearing of interrupt flags.
pub const DMA_INTC: u32 = 0x04;

/// The distance of one channel's registers from the next's.
pub const CH_STRIDE: u32 = 0x14;

pub const CHCTL_OFF: u32 = 0x08;

pub const CHCNT_OFF: u32 = 0x0C;

pub const CHPADDR_OFF: u32 = 0x10;

pub const CHMADDR_OFF: u32 = 0x14;

/// Channel on.
pub const CHCTL_CHEN: u32 = 0x0000_0001;

/// Memory increment, ring, interrupts at the full and the half transfer.
pub const CHCTL_RING: u32 = 0x0000_00A6;

/// What the self-check writes.
pub const SELF_CHECK_SENTINEL: u32 = 0xA5A5_5A5A;

/// The channels of a controller whose flags fit its flag register.
pub const CHANNELS: u8 = 8;

/// The channel that receives from a USART.
#[derive(Debug, Clone, Copy, PartialEq, Eq, Structural)]
pub struct DmaRxMap {
    pub base: u32,
    pub channel: u8,
    /// Its interrupt is shared with another channel.
    pub grouped: bool,
}

/// The offset of a channel's register.
pub open spec fn channel_offset(first: u32, channel: u8) -> u32 {
    (first + CH_STRIDE * channel) as u32
}

impl DmaRxMap {
    /// The address of a register of the channel.
    pub open spec fn cell(self, first: u32) -> u32 {
        reg::at(self.base, channel_offset(first, self.channel))
    }

    /// The channel that receives from USART1.
    pub fn usart1_rx(chip: &Chip) -> (r: DmaRxMap)
        ensures
            r == (match chip.desc().irq {
                IrqLayout::F10xSeparate => DmaRxMap {
                    base: 0x4002_0000,
                    channel: 5,
                    grouped: false,
                },
                IrqLayout::F1x0Grouped => DmaRxMap {
                    base: 0x4002_0000,
                    channel: 4,
                    grouped: true,
                },
            }),
    {
        match chip.irq() {
            IrqLayout::F10xSeparate => DmaRxMap { base: DMA0_BASE, channel: 5, grouped: false },
            IrqLayout::F1x0Grouped => DmaRxMap { base: DMA0_BASE, channel: 4, grouped: true },
        }
    }

    /// The channel that receives from the module's USART, which only F10x has.
    pub fn module_rx() -> (r: DmaRxMap)
        ensures
            r == (DmaRxMap { base: 0x4002_0000, channel: 2, grouped: false }),
    {
        DmaRxMap { base: DMA0_BASE, channel: 2, grouped: false }
    }

    fn reg(&self, first: u32) -> (r: Reg32)
        requires
            first <= 0x14,
        ensures
            r.addr == self.cell(first),
    {
        Reg32::new(self.base, first + CH_STRIDE * self.channel as u32)
    }

    /// How much of the ring is left before the channel starts over.
    pub fn remaining<B: Bus>(&self, bus: &mut B) -> (r: u16)
        ensures
            reg::did(
                *old(bus),
                *final(bus),
                Step::Load {
                    addr: self.cell(CHCNT_OFF),
                    value: reg::last_load(final(bus).log()),
                },
            ),
            r == reg::last_load(final(bus).log()) & 0xFFFF,
    {
        let v: u32 = self.reg(CHCNT_OFF).read(bus);
        proof {
            bits::low_half(v);
        }
        (v & 0xFFFF) as u16
    }

    /// What the self-check does: writes the memory address and reads it back.
    pub open spec fn check_script(self, readback: u32) -> Seq<Step> {
        Seq::empty().push(
            Step::Store { addr: self.cell(CHMADDR_OFF), value: SELF_CHECK_SENTINEL },
        ).push(Step::Load { addr: self.cell(CHMADDR_OFF), value: readback })
    }

    /// Whether the channel keeps what is written to it. In a flat space it does.
    pub fn self_check<B: Bus>(&self, bus: &mut B) -> (r: bool)
        ensures
            exists|readback: u32|
                {
                    &&& reg::ran(*old(bus), *final(bus), #[trigger] self.check_script(readback))
                    &&& r == (readback == 0xA5A5_5A5A)
                },
            old(bus).flat() ==> r,
    {
        broadcast use {reg::ran_then, reg::group_after};

        let ghost b0 = *bus;
        proof {
            reg::ran_nothing(b0);
        }
        self.reg(CHMADDR_OFF).write(bus, SELF_CHECK_SENTINEL);
        let readback: u32 = self.reg(CHMADDR_OFF).read(bus);
        proof {
            let script = self.check_script(readback);
            assert(reg::ran(b0, *bus, script));
            if b0.flat() {
                reg::ran_loads(b0, *bus, script, 1);
                assert(script.take(1) =~= Seq::empty().push(script[0]));
            }
        }
        readback == SELF_CHECK_SENTINEL
    }

    /// Setting up the ring: the channel is stopped, its addresses and count are set, and it is
    /// started when all of that is complete.
    pub open spec fn ring_script(self, paddr: u32, maddr: u32, len: u16) -> Seq<Step> {
        Seq::empty().push(
            Step::Modify { addr: self.cell(CHCTL_OFF), mask: CHCTL_CHEN, bits: 0 },
        ).push(Step::Store { addr: self.cell(CHPADDR_OFF), value: paddr }).push(
            Step::Store { addr: self.cell(CHMADDR_OFF), value: maddr },
        ).push(Step::Store { addr: self.cell(CHCNT_OFF), value: len as u32 }).push(
            Step::Store { addr: self.cell(CHCTL_OFF), value: CHCTL_RING },
        ).push(Step::Fence).push(
            Step::Modify { addr: self.cell(CHCTL_OFF), mask: CHCTL_CHEN, bits: CHCTL_CHEN },
        )
    }

    /// Receive into a ring of `len` bytes at `maddr` from the register at `paddr`, over and over.
    pub fn configure_circular<B: Bus>(&self, bus: &mut B, paddr: u32, maddr: u32, len: u16)
        ensures
            reg::ran(*old(bus), *final(bus), self.ring_script(paddr, maddr, len)),
    {
        broadcast use reg::ran_then;

        proof {
            reg::ran_nothing(*bus);
        }
        self.reg(CHCTL_OFF).modify(bus, CHCTL_CHEN, 0);
        self.reg(CHPADDR_OFF).write(bus, paddr);
        self.reg(CHMADDR_OFF).write(bus, maddr);
        self.reg(CHCNT_OFF).write(bus, len as u32);
        self.reg(CHCTL_OFF).write(bus, CHCTL_RING);
        reg::fence(bus);
        self.reg(CHCTL_OFF).modify(bus, CHCTL_CHEN, CHCTL_CHEN);
    }

    /// Stop the channel.
    pub fn disable<B: Bus>(&self, bus: &mut B)
        ensures
            reg::did(
                *old(bus),
                *final(bus),
                Step::Modify { addr: self.cell(CHCTL_OFF), mask: CHCTL_CHEN, bits: 0 },
            ),
    {
        self.reg(CHCTL_OFF).modify(bus, CHCTL_CHEN, 0);
    }

    /// Whether the channel started over and nobody has taken notice yet.
    pub fn ftf_pending<B: Bus>(&self, bus: &mut B) -> (r: bool)
        requires
            self.channel < CHANNELS,
        ensures
            reg::did(
                *old(bus),
                *final(bus),
                Step::Load {
                    addr: reg::at(self.base, DMA_INTF),
                    value: reg::last_load(final(bus).log()),
                },
            ),
            r == (reg::last_load(final(bus).log()) & ftf(self.channel) != 0),
    {
        let intf: u32 = Reg32::new(self.base, DMA_INTF).read(bus);
        intf & (1u32 << (4 * self.channel as u32 + 1)) != 0
    }
}

/// The flag of any event of a channel.
pub open spec fn gif(channel: u8) -> u32 {
    1u32 << ((4 * channel) as u32)
}

/// The full transfer flag of a channel.
pub open spec fn ftf(channel: u8) -> u32 {
    1u32 << ((4 * channel + 1) as u32)
}

/// The half transfer flag of a channel.
pub open spec fn htf(channel: u8) -> u32 {
    1u32 << ((4 * channel + 2) as u32)
}

/// What the interrupt handler knows of a channel.
#[derive(Debug, Clone, Copy, PartialEq, Eq, Structural)]
pub struct DmaRxCtx {
    pub installed: bool,
    pub base: u32,
    pub channel: u8,
    /// How often the channel started over, modulo the range of the count.
    pub wraps: u32,
}

/// The contexts of the two receivers.
pub const CONTEXTS: usize = 2;

impl DmaRxCtx {
    /// The flags of an installed channel fit the flag register.
    pub open spec fn wf(self) -> bool {
        self.installed ==> self.channel < CHANNELS
    }

    /// No channel.
    pub fn new() -> (r: DmaRxCtx)
        ensures
            r == (DmaRxCtx { installed: false, base: 0, channel: 0, wraps: 0 }),
            r.wf(),
    {
        DmaRxCtx { installed: false, base: 0, channel: 0, wraps: 0 }
    }
}

/// Make a channel that of context `ctx_index`, with its count at zero.
pub fn install(contexts: &mut [DmaRxCtx; CONTEXTS], map: &DmaRxMap, ctx_index: usize)
    requires
        ctx_index < CONTEXTS,
        map.channel < CHANNELS,
    ensures
        final(contexts)@ == old(contexts)@.update(
            ctx_index as int,
            (DmaRxCtx { installed: true, base: map.base, channel: map.channel, wraps: 0 }),
        ),
{
    contexts[ctx_index] = DmaRxCtx {
        installed: true,
        base: map.base,
        channel: map.channel,
        wraps: 0,
    };
}

/// How often the channel of context `ctx_index` started over.
pub fn wraps(contexts: &[DmaRxCtx; CONTEXTS], ctx_index: usize) -> (r: u32)
    requires
        ctx_index < CONTEXTS,
    ensures
        r == contexts@[ctx_index as int].wraps,
{
    contexts[ctx_index].wraps
}

/// The flags to clear where the flag register reads `intf`: a full transfer with the flag of any
/// event, a half transfer by itself.
pub open spec fn serviced(channel: u8, intf: u32) -> u32 {
    let full = if intf & ftf(channel) != 0 {
        ftf(channel) | gif(channel)
    } else {
        0
    };
    if intf & htf(channel) != 0 {
        full | htf(channel)
    } else {
        full
    }
}

/// Looking at the flags, which read `intf`, and clearing those of the channel. The controller
/// clears a flag that is written one; in a flat space the flags themselves are cleared as well.
pub open spec fn service_script(flat: bool, base: u32, channel: u8, intf: u32) -> Seq<Step> {
    let clear = serviced(channel, intf);
    let looked = Seq::empty().push(Step::Load { addr: reg::at(base, DMA_INTF), value: intf });
    let cleared = looked.push(Step::Store { addr: reg::at(base, DMA_INTC), value: clear });
    if clear == 0 {
        looked
    } else if flat {
        cleared.push(Step::Modify { addr: reg::at(base, DMA_INTF), mask: clear, bits: 0 })
    } else {
        cleared
    }
}

/// Service the interrupt of a channel: count a full transfer, and clear the channel's flags. A
/// context without a channel does nothing.
pub fn service_dma_rx<B: Bus>(bus: &mut B, ctx: &mut DmaRxCtx)
    requires
        old(ctx).wf(),
    ensures
        final(ctx).wf(),
        !old(ctx).installed ==> *final(bus) == *old(bus) && *final(ctx) == *old(ctx),
        old(ctx).installed ==> exists|intf: u32|
            {
                &&& reg::ran(
                    *old(bus),
                    *final(bus),
                    #[trigger] service_script(old(bus).flat(), old(ctx).base, old(ctx).channel, intf),
                )
                &&& *final(ctx) == (DmaRxCtx {
                    wraps: if intf & ftf(old(ctx).channel) != 0 {
                        old(ctx).wraps.wrapping_add(1)
                    } else {
                        old(ctx).wraps
                    },
                    ..*old(ctx)
                })
            },
{
    broadcast use reg::ran_then;

    if !ctx.installed {
        return ;
    }
    let ghost b0 = *bus;
    proof {
        reg::ran_nothing(b0);
    }
    let flat: bool = bus.is_flat();
    let base: u32 = ctx.base;
    let ch: u32 = ctx.channel as u32;
    let intf: u32 = Reg32::new(base, DMA_INTF).read(bus);
    let any: u32 = 1u32 << (4 * ch);
    let full: u32 = 1u32 << (4 * ch + 1);
    let half: u32 = 1u32 << (4 * ch + 2);
    let mut clear: u32 = 0;
    if intf & full != 0 {
        ctx.wraps = ctx.wraps.wrapping_add(1);
        clear = full | any;
    }
    if intf & half != 0 {
        clear = if clear == 0 {
            half
        } else {
            clear | half
        };
    }
    proof {
        bits::no_bits(half);
    }
    assert(clear == serviced(ctx.channel, intf));
    if clear != 0 {
        Reg32::new(base, DMA_INTC).write(bus, clear);
        if flat {
            Reg32::new(base, DMA_INTF).modify(bus, clear, 0);
        }
    }
    assert(reg::ran(b0, *bus, service_script(flat, base, ctx.channel, intf)));
}

/// Forget every channel.
pub fn reset_for_test(contexts: &mut [DmaRxCtx; CONTEXTS])
    ensures
        forall|i: int|
            0 <= i < CONTEXTS ==> #[trigger] final(contexts)@[i] == (DmaRxCtx {
                installed: false,
                base: 0,
                channel: 0,
                wraps: 0,
            }),
{
    contexts[0] = DmaRxCtx::new();
    contexts[1] = DmaRxCtx::new();
}

// --- laws -------------------------------------------------------------------------------------

/// Servicing a channel never clears a flag of another: of a shared interrupt each takes its own.
pub proof fn law_service_clears_own_flags(channel: u8, other: u8, intf: u32)
    requires
        channel < CHANNELS,
        other < CHANNELS,
        channel != other,
    ensures
        serviced(channel, intf) & (0xFu32 << ((4 * other) as u32)) == 0,
{
    let (c, o) = ((4 * channel) as u32, (4 * other) as u32);
    bits::nibble_flags(c, o);
}

/// In a flat space a serviced full transfer is no longer pending.
pub proof fn law_serviced_is_not_pending(base: u32, channel: u8, intf: u32)
    requires
        channel < CHANNELS,
    ensures
        reg::word_after(
            service_script(true, base, channel, intf),
            reg::at(base, DMA_INTF),
            intf,
        ) & ftf(channel) == 0,
{
    broadcast use reg::group_after;

    let clear = serviced(channel, intf);
    let c = (4 * channel) as u32;
    bits::nibble_flags(c, c);
    bits::cleared_flag(intf, clear, ftf(channel));
}

/// The registers of a channel: control, count, peripheral and memory address, twenty bytes for each
/// channel behind the two flag registers.
pub proof fn law_channel_registers(map: DmaRxMap)
    ensures
        map.cell(CHCTL_OFF) == (map.base + 0x08 + 20 * map.channel) % 0x1_0000_0000,
        map.cell(CHCNT_OFF) == (map.base + 0x0C + 20 * map.channel) % 0x1_0000_0000,
        map.cell(CHPADDR_OFF) == (map.base + 0x10 + 20 * map.channel) % 0x1_0000_0000,
        map.cell(CHMADDR_OFF) == (map.base + 0x14 + 20 * map.channel) % 0x1_0000_0000,
{
}

/// A ring that is set up has the addresses and the count asked for, counts memory up, starts over,
/// tells of the full and the half transfer, and is on. While anything else of it is set, it is off,
/// and what was set is complete before it goes on.
pub proof fn law_ring_registers(map: DmaRxMap, paddr: u32, maddr: u32, len: u16, w: u32, k: int)
    requires
        1 <= k < 7,
    ensures
        ({
            let script = map.ring_script(paddr, maddr, len);
            let cell = |offset: int| ((map.base + offset + 20 * map.channel) % 0x1_0000_0000) as u32;
            &&& script.len() == 7
            &&& reg::word_after(script, cell(0x10), w) == paddr
            &&& reg::word_after(script, cell(0x14), w) == maddr
            &&& reg::word_after(script, cell(0x0C), w) == len
            &&& reg::word_after(script, cell(0x08), w) == 0xA7
            &&& reg::word_after(script.take(k), cell(0x08), w) & 1 == 0
            &&& script[5] is Fence
            &&& script[6] matches Step::Modify { addr, .. } && addr == cell(0x08)
        }),
{
    broadcast use reg::group_after;

    let script = map.ring_script(paddr, maddr, len);
    let cell = map.cell(CHCTL_OFF);
    law_channel_registers(map);
    bits::masks();
    bits::merge_fields(w, 1, 0, 1);
    bits::no_bits(1);
    assert(script.take(1) =~= Seq::empty().push(script[0]));
    assert(script.take(2) =~= script.take(1).push(script[1]));
    assert(script.take(3) =~= script.take(2).push(script[2]));
    assert(script.take(4) =~= script.take(3).push(script[3]));
    assert(script.take(5) =~= script.take(4).push(script[4]));
    assert(script.take(6) =~= script.take(5).push(script[5]));
    assert(script =~= script.take(6).push(script[6]));
    assert(k == 1 || k == 2 || k == 3 || k == 4 || k == 5 || k == 6);
}

/// The flags of a channel are the four bits from `4 * channel` on: any event, full transfer, half
/// transfer, error. Servicing clears the first two where a full transfer is flagged and the third
/// where a half transfer is, and nothing else of them.
pub proof fn law_serviced_flags(channel: u8, intf: u32)
    requires
        channel < 8,
    ensures
        (serviced(channel, intf) >> ((4 * channel) as u32)) & 15 == (if (intf >> ((4 * channel + 1)
            as u32)) & 1 == 1 {
            3int
        } else {
            0
        }) + (if (intf >> ((4 * channel + 2) as u32)) & 1 == 1 {
            4int
        } else {
            0
        }),
        intf & ftf(channel) != 0 <==> (intf >> ((4 * channel + 1) as u32)) & 1 == 1,
{
    let c = (4 * channel) as u32;
    bits::nibble_flags(c, c);
    bits::one_bit(intf, (c + 1) as u32);
    bits::one_bit(intf, (c + 2) as u32);
}

/// On a part the flags that are serviced are written once to the register behind the flags, and
/// nothing is written where there are none.
pub proof fn law_service_writes_once(base: u32, channel: u8, intf: u32)
    ensures
        ({
            let clear = serviced(channel, intf);
            let script = service_script(false, base, channel, intf);
            let looked = Step::Load { addr: reg::at(base, 0x00), value: intf };
            if clear == 0 {
                script == seq![looked]
            } else {
                script == seq![looked, Step::Store { addr: reg::at(base, 0x04), value: clear }]
            }
        }),
{
}

/// The four flags of each channel fill the flag register.
pub proof fn law_flags_fill_the_register()
    ensures
        4 * CHANNELS == 32,
{
}

} // verus!
