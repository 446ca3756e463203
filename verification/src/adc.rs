//! The analog-to-digital converter: regular conversions by software, injected conversions by a
//! timer.
//!
//! The register block is the same on both families. A converter is configured, then calibrated:
//! the calibration reset and the calibration itself are each started by setting a bit and are over
//! when the hardware clears it. Every wait is bounded.

use vstd::prelude::*;

use crate::bits;
use crate::error::AdcError;
use crate::reg::{self, Bus, Reg32, Step, Want};

verus! {

pub const STAT: u32 = 0x00;

pub const CTL0: u32 = 0x04;

pub const CTL1: u32 = 0x08;

pub const SAMPT0: u32 = 0x0C;

pub const SAMPT1: u32 = 0x10;

pub const RSQ0: u32 = 0x2C;

pub const RSQ1: u32 = 0x30;

pub const RSQ2: u32 = 0x34;

pub const ISQ: u32 = 0x38;

pub const IDATA0: u32 = 0x3C;

pub const RDATA: u32 = 0x4C;

/// End of a regular conversion.
pub const STAT_EOC: u32 = 0x0000_0002;

/// End of the injected group.
pub const STAT_EOIC: u32 = 0x0000_0004;

/// Interrupt at the end of the injected group.
pub const CTL0_EOICIE: u32 = 0x0000_0080;

/// Scan mode.
pub const CTL0_SM: u32 = 0x0000_0100;

/// Converter on.
pub const CTL1_ADCON: u32 = 0x0000_0001;

/// Continuous conversion.
pub const CTL1_CTN: u32 = 0x0000_0002;

/// Calibration; clears itself.
pub const CTL1_CLB: u32 = 0x0000_0004;

/// Calibration reset; clears itself.
pub const CTL1_RSTCLB: u32 = 0x0000_0008;

/// Left alignment.
pub const CTL1_DAL: u32 = 0x0000_0800;

/// Trigger source of the injected group.
pub const CTL1_ETSIC: u32 = 0x0000_7000;

/// External trigger for the injected group.
pub const CTL1_ETEIC: u32 = 0x0000_8000;

/// Trigger source of the regular group.
pub const CTL1_ETSRC: u32 = 0x000E_0000;

/// The regular trigger source that is software.
pub const ETSRC_SOFTWARE: u32 = 0x000E_0000;

/// External trigger for the regular group; needed for the software trigger too.
pub const CTL1_ETERC: u32 = 0x0010_0000;

/// Software start of the regular group.
pub const CTL1_SWRCST: u32 = 0x0040_0000;

/// Temperature sensor and reference voltage channels on.
pub const CTL1_TSVREN: u32 = 0x0080_0000;

/// Injected trigger source: the trigger output of timer 0.
pub const ETSIC_T0_TRGO: u32 = 0;

/// Injected trigger source: channel 3 of timer 0.
pub const ETSIC_T0_CH3: u32 = 1;

/// Length of the injected sequence, less one.
pub const ISQ_IL: u32 = 0x0030_0000;

/// Length of the regular sequence, less one.
pub const RSQ0_RL: u32 = 0x00F0_0000;

/// A channel number in a sequence register.
pub const RSQ_FIELD: u32 = 0x1F;

/// A sample time.
pub const SAMPT_FIELD: u32 = 0x7;

/// Polls before a wait gives up.
pub const ADC_TIMEOUT: u32 = 100_000;

/// The longest injected sequence.
pub const MAX_INJECTED: u8 = 4;

/// Whether a channel is wired inside the part: the temperature sensor and the reference voltage.
pub open spec fn internal(channel: u8) -> bool {
    channel == 16 || channel == 17
}

/// Whether a channel is wired inside the part.
pub fn is_internal_channel(channel: u8) -> (r: bool)
    ensures
        r == internal(channel),
{
    channel == 16 || channel == 17
}

// --- what goes over the bus -------------------------------------------------------------------

/// A change to CTL1.
pub open spec fn ctl1_step(base: u32, mask: u32, bits: u32) -> Step {
    Step::Modify { addr: reg::at(base, CTL1), mask, bits }
}

/// Waiting for the hardware to clear a bit of CTL1.
pub open spec fn clear_step(base: u32, mask: u32) -> Step {
    Step::Await {
        addr: reg::at(base, CTL1),
        want: Want::Low { mask },
        abort: 0,
        limit: ADC_TIMEOUT as u64,
    }
}

/// Waiting for a flag of STAT.
pub open spec fn flag_step(base: u32, flag: u32) -> Step {
    Step::Await {
        addr: reg::at(base, STAT),
        want: Want::High { mask: flag },
        abort: 0,
        limit: ADC_TIMEOUT as u64,
    }
}

/// The register and the shift of a rank in the regular sequence.
pub open spec fn rank_place(rank: u8) -> (u32, u32) {
    if rank <= 5 {
        (RSQ2, (5 * rank) as u32)
    } else if rank <= 11 {
        (RSQ1, (5 * (rank - 6)) as u32)
    } else {
        (RSQ0, (5 * (rank - 12)) as u32)
    }
}

/// Giving a rank of the regular sequence its channel; there are sixteen ranks, and another number
/// does nothing.
pub open spec fn rank_script(base: u32, rank: u8, channel: u8) -> Seq<Step> {
    if rank <= 15 {
        let (offset, shift) = rank_place(rank);
        seq![
            Step::Modify {
                addr: reg::at(base, offset),
                mask: RSQ_FIELD << shift,
                bits: (channel as u32 & RSQ_FIELD) << shift,
            },
        ]
    } else {
        Seq::empty()
    }
}

/// The register and the shift of a channel's sample time.
pub open spec fn sample_place(channel: u8) -> (u32, u32) {
    if channel < 10 {
        (SAMPT1, (3 * channel) as u32)
    } else {
        (SAMPT0, (3 * (channel - 10)) as u32)
    }
}

/// Giving a channel its sample time; there are eighteen channels, and another number does nothing.
pub open spec fn sample_script(base: u32, channel: u8, sample_time: u8) -> Seq<Step> {
    if channel < 18 {
        let (offset, shift) = sample_place(channel);
        seq![
            Step::Modify {
                addr: reg::at(base, offset),
                mask: SAMPT_FIELD << shift,
                bits: (sample_time as u32 & SAMPT_FIELD) << shift,
            },
        ]
    } else {
        Seq::empty()
    }
}

/// Setting the length of the regular sequence; it is at least one.
pub open spec fn length_step(base: u32, len: u8) -> Step {
    Step::Modify {
        addr: reg::at(base, RSQ0),
        mask: RSQ0_RL,
        bits: ((at_least_one(len) - 1) as u32) << 20,
    }
}

/// A length, one where zero is given.
pub open spec fn at_least_one(len: u8) -> u8 {
    if len == 0 {
        1
    } else {
        len
    }
}

/// Switching on the internal channels where one is converted.
pub open spec fn internal_script(base: u32, any: bool) -> Seq<Step> {
    if any {
        seq![ctl1_step(base, CTL1_TSVREN, CTL1_TSVREN)]
    } else {
        Seq::empty()
    }
}

/// The start of the regular configuration: single conversion, right-aligned, one channel.
pub open spec fn configure_lead(base: u32) -> Seq<Step> {
    Seq::empty().push(
        Step::Modify { addr: reg::at(base, CTL0), mask: CTL0_SM, bits: 0 },
    ).push(ctl1_step(base, CTL1_CTN, 0)).push(ctl1_step(base, CTL1_DAL, 0)).push(
        length_step(base, 1),
    )
}

/// The end of the regular configuration: software trigger, converter on.
pub open spec fn configure_close(base: u32) -> Seq<Step> {
    Seq::empty().push(ctl1_step(base, CTL1_ETSRC, ETSRC_SOFTWARE)).push(
        ctl1_step(base, CTL1_ETERC, CTL1_ETERC),
    ).push(ctl1_step(base, CTL1_ADCON, CTL1_ADCON))
}

/// The regular configuration of one channel.
pub open spec fn configure_script(base: u32, channel: u8, sample_time: u8) -> Seq<Step> {
    configure_lead(base) + rank_script(base, 0, channel) + sample_script(base, channel, sample_time)
        + internal_script(base, internal(channel)) + configure_close(base)
}

/// The calibration reset, then the calibration.
pub open spec fn calibrate_script(base: u32) -> Seq<Step> {
    Seq::empty().push(ctl1_step(base, CTL1_RSTCLB, CTL1_RSTCLB)).push(
        clear_step(base, CTL1_RSTCLB),
    ).push(ctl1_step(base, CTL1_CLB, CTL1_CLB)).push(clear_step(base, CTL1_CLB))
}

/// What a calibration comes to: it runs to its end, or one of its two waits is not met.
pub open spec fn calibrated<B: Bus>(b0: B, b1: B, base: u32, r: Result<(), AdcError>) -> bool {
    match r {
        Ok(_) => reg::ran(b0, b1, calibrate_script(base)),
        Err(e) => {
            &&& e == AdcError::Timeout
            &&& reg::broke(b0, b1, calibrate_script(base), 1) || reg::broke(
                b0,
                b1,
                calibrate_script(base),
                3,
            )
        },
    }
}

/// Setting the length of the injected sequence; it is at least one.
pub open spec fn injected_length_step(base: u32, len: u8) -> Step {
    Step::Modify {
        addr: reg::at(base, ISQ),
        mask: ISQ_IL,
        bits: ((at_least_one(len) - 1) as u32) << 20,
    }
}

/// The shift of a rank in an injected sequence of the given length. The sequence ends at the top
/// field: a shorter one starts further up.
pub open spec fn injected_shift(rank: u8, len: u8) -> u32 {
    (15 - 5 * (at_least_one(len) - 1 - rank)) as u32
}

/// Giving a rank of the injected sequence its channel.
pub open spec fn injected_rank_step(base: u32, rank: u8, channel: u8, len: u8) -> Step {
    Step::Modify {
        addr: reg::at(base, ISQ),
        mask: RSQ_FIELD << injected_shift(rank, len),
        bits: (channel as u32 & RSQ_FIELD) << injected_shift(rank, len),
    }
}

/// Giving the first `n` ranks their channels, and the channels their sample times.
pub open spec fn injected_ranks(base: u32, channels: Seq<(u8, u8)>, n: nat) -> Seq<Step>
    decreases n,
{
    if n == 0 {
        Seq::empty()
    } else {
        let (channel, sample_time) = channels[n - 1];
        injected_ranks(base, channels, (n - 1) as nat).push(
            injected_rank_step(base, (n - 1) as u8, channel, channels.len() as u8),
        ) + sample_script(base, channel, sample_time)
    }
}

/// Whether one of the first `n` channels is internal.
pub open spec fn any_internal(channels: Seq<(u8, u8)>, n: nat) -> bool {
    exists|i: int| 0 <= i < n && internal((#[trigger] channels[i]).0)
}

/// The start of the injected configuration: alignment and length.
pub open spec fn injected_lead(base: u32, len: u8, left_aligned: bool) -> Seq<Step> {
    Seq::empty().push(
        ctl1_step(
            base,
            CTL1_DAL,
            if left_aligned {
                CTL1_DAL
            } else {
                0
            },
        ),
    ).push(injected_length_step(base, len))
}

/// The end of the injected configuration: trigger, interrupt, converter on.
pub open spec fn injected_close(base: u32, etsic: u32) -> Seq<Step> {
    Seq::empty().push(ctl1_step(base, CTL1_ETSIC, etsic << 12)).push(
        ctl1_step(base, CTL1_ETEIC, CTL1_ETEIC),
    ).push(
        Step::Modify { addr: reg::at(base, CTL0), mask: CTL0_EOICIE, bits: CTL0_EOICIE },
    ).push(ctl1_step(base, CTL1_ADCON, CTL1_ADCON))
}

/// The injected configuration of a sequence of channels with their sample times.
pub open spec fn injected_script(
    base: u32,
    channels: Seq<(u8, u8)>,
    left_aligned: bool,
    etsic: u32,
) -> Seq<Step> {
    injected_lead(base, channels.len() as u8, left_aligned) + injected_ranks(
        base,
        channels,
        channels.len(),
    ) + internal_script(base, any_internal(channels, channels.len())) + injected_close(base, etsic)
}

/// What a regular reading comes to: the end of the conversion is awaited, then the data register
/// read, of which the lower half is the result.
pub open spec fn read_out<B: Bus>(b0: B, b1: B, base: u32, r: Result<u16, AdcError>) -> bool {
    match r {
        Ok(v) => {
            &&& reg::ran(
                b0,
                b1,
                Seq::empty().push(flag_step(base, STAT_EOC)).push(
                    Step::Load { addr: reg::at(base, RDATA), value: reg::last_load(b1.log()) },
                ),
            )
            &&& v == reg::last_load(b1.log()) & 0xFFFF
        },
        Err(e) => e == AdcError::Timeout && reg::stuck(b0, b1, flag_step(base, STAT_EOC)),
    }
}

// --- the driver -------------------------------------------------------------------------------

/// A converter.
#[derive(Debug, Clone, Copy, PartialEq, Eq, Structural)]
pub struct Adc {
    base: u32,
}

impl Adc {
    /// The base of the converter.
    pub closed spec fn place(self) -> u32 {
        self.base
    }

    /// The converter at `base`, as it stands.
    pub fn at(base: u32) -> (r: Adc)
        ensures
            r.place() == base,
    {
        Adc { base }
    }

    /// Configure a converter for one channel and calibrate it.
    pub fn bring_up<B: Bus>(bus: &mut B, base: u32, channel: u8, sample_time: u8) -> (r: Result<
        Adc,
        AdcError,
    >)
        ensures
            exists|m: B, c: Result<(), AdcError>|
                {
                    &&& reg::ran(*old(bus), m, configure_script(base, channel, sample_time))
                    &&& #[trigger] calibrated(m, *final(bus), base, c)
                    &&& match r {
                        Ok(dev) => c is Ok && dev.place() == base,
                        Err(e) => c is Err && c->Err_0 == e,
                    }
                },
    {
        let dev = Adc::configure_single(bus, base, channel, sample_time);
        let ghost m = *bus;
        let c: Result<(), AdcError> = dev.calibrate(bus);
        match c {
            Ok(_) => Ok(dev),
            Err(e) => Err(e),
        }
    }

    /// Configure a converter for single conversions of one channel, started by software.
    pub fn configure_single<B: Bus>(bus: &mut B, base: u32, channel: u8, sample_time: u8) -> (r: Adc)
        ensures
            r.place() == base,
            reg::ran(*old(bus), *final(bus), configure_script(base, channel, sample_time)),
    {
        let dev = Adc { base };
        dev.configure(bus, channel, sample_time);
        dev
    }

    /// Configure for single conversions of one channel, started by software.
    pub fn configure<B: Bus>(&self, bus: &mut B, channel: u8, sample_time: u8)
        ensures
            reg::ran(*old(bus), *final(bus), configure_script(self.place(), channel, sample_time)),
    {
        let ghost b0 = *bus;
        self.configure_start(bus);
        let ghost b1 = *bus;
        self.set_regular_rank(bus, 0, channel);
        let ghost b2 = *bus;
        self.set_sample_time(bus, channel, sample_time);
        let ghost b3 = *bus;
        self.enable_internal(bus, is_internal_channel(channel));
        let ghost b4 = *bus;
        self.configure_finish(bus);
        proof {
            let s1 = configure_lead(self.base);
            let s2 = s1 + rank_script(self.base, 0, channel);
            let s3 = s2 + sample_script(self.base, channel, sample_time);
            let s4 = s3 + internal_script(self.base, internal(channel));
            reg::ran_append(b0, b1, b2, s1, rank_script(self.base, 0, channel));
            reg::ran_append(b0, b2, b3, s2, sample_script(self.base, channel, sample_time));
            reg::ran_append(b0, b3, b4, s3, internal_script(self.base, internal(channel)));
            reg::ran_append(b0, b4, *bus, s4, configure_close(self.base));
        }
    }

    fn configure_start<B: Bus>(&self, bus: &mut B)
        ensures
            reg::ran(*old(bus), *final(bus), configure_lead(self.place())),
    {
        broadcast use reg::ran_then;

        proof {
            reg::ran_nothing(*bus);
        }
        self.reg(CTL0).modify(bus, CTL0_SM, 0);
        self.reg(CTL1).modify(bus, CTL1_CTN, 0);
        self.reg(CTL1).modify(bus, CTL1_DAL, 0);
        self.set_regular_length(bus, 1);
    }

    fn configure_finish<B: Bus>(&self, bus: &mut B)
        ensures
            reg::ran(*old(bus), *final(bus), configure_close(self.place())),
    {
        broadcast use reg::ran_then;

        proof {
            reg::ran_nothing(*bus);
        }
        self.reg(CTL1).modify(bus, CTL1_ETSRC, ETSRC_SOFTWARE);
        self.reg(CTL1).modify(bus, CTL1_ETERC, CTL1_ETERC);
        self.reg(CTL1).modify(bus, CTL1_ADCON, CTL1_ADCON);
    }

    fn enable_internal<B: Bus>(&self, bus: &mut B, any: bool)
        ensures
            reg::ran(*old(bus), *final(bus), internal_script(self.place(), any)),
    {
        proof {
            reg::ran_nothing(*bus);
        }
        if any {
            self.reg(CTL1).modify(bus, CTL1_TSVREN, CTL1_TSVREN);
            proof {
                reg::ran_one(*old(bus), *bus, ctl1_step(self.base, CTL1_TSVREN, CTL1_TSVREN));
            }
        }
    }

    /// Reset the calibration and calibrate.
    pub fn calibrate<B: Bus>(&self, bus: &mut B) -> (r: Result<(), AdcError>)
        ensures
            calibrated(*old(bus), *final(bus), self.place(), r),
    {
        broadcast use reg::ran_then;

        let ghost script = calibrate_script(self.base);
        let ghost b0 = *bus;
        proof {
            reg::ran_nothing(*bus);
        }
        self.reg(CTL1).modify(bus, CTL1_RSTCLB, CTL1_RSTCLB);
        let ghost b1 = *bus;
        let reset: Result<(), AdcError> = self.wait_clear(bus, CTL1_RSTCLB);
        if reset.is_err() {
            proof {
                assert(script.take(1) =~= Seq::empty().push(script[0]));
                reg::broke_at(b0, b1, *bus, script, 1);
            }
            return Err(AdcError::Timeout);
        }
        self.reg(CTL1).modify(bus, CTL1_CLB, CTL1_CLB);
        let ghost b3 = *bus;
        let done: Result<(), AdcError> = self.wait_clear(bus, CTL1_CLB);
        if done.is_err() {
            proof {
                assert(script.take(3) =~= Seq::empty().push(script[0]).push(script[1]).push(
                    script[2],
                ));
                reg::broke_at(b0, b3, *bus, script, 3);
            }
            return Err(AdcError::Timeout);
        }
        Ok(())
    }

    /// Start a regular conversion.
    pub fn software_trigger<B: Bus>(&self, bus: &mut B)
        ensures
            reg::did(*old(bus), *final(bus), ctl1_step(self.place(), 0x40_0000, 0x40_0000)),
    {
        self.reg(CTL1).modify(bus, CTL1_SWRCST, CTL1_SWRCST);
    }

    /// Configure a converter for a sequence of up to four injected channels with their sample
    /// times, started by the trigger source `etsic`.
    pub fn configure_injected<B: Bus>(
        bus: &mut B,
        base: u32,
        channels: &[(u8, u8)],
        left_aligned: bool,
        etsic: u32,
    ) -> (r: Adc)
        requires
            channels@.len() <= MAX_INJECTED,
        ensures
            r.place() == base,
            reg::ran(
                *old(bus),
                *final(bus),
                injected_script(base, channels@, left_aligned, etsic),
            ),
    {
        let dev = Adc { base };
        let len: u8 = channels.len() as u8;
        let ghost b0 = *bus;
        dev.injected_start(bus, len, left_aligned);
        let ghost b1 = *bus;
        let any: bool = dev.set_injected(bus, channels);
        let ghost b2 = *bus;
        dev.enable_internal(bus, any);
        let ghost b3 = *bus;
        dev.injected_finish(bus, etsic);
        proof {
            let n = channels@.len();
            let s1 = injected_lead(base, len, left_aligned);
            let s2 = s1 + injected_ranks(base, channels@, n);
            let s3 = s2 + internal_script(base, any);
            reg::ran_append(b0, b1, b2, s1, injected_ranks(base, channels@, n));
            reg::ran_append(b0, b2, b3, s2, internal_script(base, any));
            reg::ran_append(b0, b3, *bus, s3, injected_close(base, etsic));
        }
        dev
    }

    fn injected_start<B: Bus>(&self, bus: &mut B, len: u8, left_aligned: bool)
        ensures
            reg::ran(*old(bus), *final(bus), injected_lead(self.place(), len, left_aligned)),
    {
        broadcast use reg::ran_then;

        proof {
            reg::ran_nothing(*bus);
        }
        let align: u32 = if left_aligned {
            CTL1_DAL
        } else {
            0
        };
        self.reg(CTL1).modify(bus, CTL1_DAL, align);
        self.set_injected_length(bus, len);
    }

    fn set_injected<B: Bus>(&self, bus: &mut B, channels: &[(u8, u8)]) -> (any: bool)
        requires
            channels@.len() <= MAX_INJECTED,
        ensures
            any == any_internal(channels@, channels@.len()),
            reg::ran(
                *old(bus),
                *final(bus),
                injected_ranks(self.place(), channels@, channels@.len()),
            ),
    {
        broadcast use reg::ran_then;

        let ghost b0 = *bus;
        let n: usize = channels.len();
        let mut any: bool = false;
        let mut i: usize = 0;
        proof {
            reg::ran_nothing(*bus);
        }
        while i < n
            invariant
                b0 == *old(bus),
                n == channels@.len() <= MAX_INJECTED,
                i <= n,
                any == any_internal(channels@, i as nat),
                reg::ran(b0, *bus, injected_ranks(self.base, channels@, i as nat)),
            decreases n - i,
        {
            broadcast use reg::ran_then;

            let ghost ranks = injected_ranks(self.base, channels@, i as nat);
            let (channel, sample_time): (u8, u8) = channels[i];
            self.set_injected_rank(bus, i as u8, channel, n as u8);
            let ghost b1 = *bus;
            let ghost step = injected_rank_step(self.base, i as u8, channel, n as u8);
            self.set_sample_time(bus, channel, sample_time);
            let is_internal: bool = is_internal_channel(channel);
            proof {
                reg::ran_append(
                    b0,
                    b1,
                    *bus,
                    ranks.push(step),
                    sample_script(self.base, channel, sample_time),
                );
                assert(injected_ranks(self.base, channels@, (i + 1) as nat) == ranks.push(step)
                    + sample_script(self.base, channel, sample_time));
                assert(is_internal ==> internal(channels@[i as int].0));
                assert((any || is_internal) == any_internal(channels@, (i + 1) as nat)) by {
                    if any_internal(channels@, (i + 1) as nat) {
                        let j = choose|j: int|
                            0 <= j < i + 1 && internal((#[trigger] channels@[j]).0);
                        assert(j < i || j == i);
                    }
                }
            }
            any = any || is_internal;
            i = i + 1;
        }
        any
    }

    fn injected_finish<B: Bus>(&self, bus: &mut B, etsic: u32)
        ensures
            reg::ran(*old(bus), *final(bus), injected_close(self.place(), etsic)),
    {
        broadcast use reg::ran_then;

        proof {
            reg::ran_nothing(*bus);
        }
        self.reg(CTL1).modify(bus, CTL1_ETSIC, etsic << 12);
        self.reg(CTL1).modify(bus, CTL1_ETEIC, CTL1_ETEIC);
        self.reg(CTL0).modify(bus, CTL0_EOICIE, CTL0_EOICIE);
        self.reg(CTL1).modify(bus, CTL1_ADCON, CTL1_ADCON);
    }

    /// Configure a converter for an injected sequence and calibrate it.
    pub fn bring_up_injected<B: Bus>(
        bus: &mut B,
        base: u32,
        channels: &[(u8, u8)],
        left_aligned: bool,
        etsic: u32,
    ) -> (r: Result<Adc, AdcError>)
        requires
            channels@.len() <= MAX_INJECTED,
        ensures
            injected_brought_up(
                *old(bus),
                *final(bus),
                base,
                channels@,
                left_aligned,
                etsic,
                r,
            ),
    {
        let dev = Adc::configure_injected(bus, base, channels, left_aligned, etsic);
        let ghost m = *bus;
        let c: Result<(), AdcError> = dev.calibrate(bus);
        assert(calibrated(m, *bus, base, c));
        match c {
            Ok(_) => Ok(dev),
            Err(e) => Err(e),
        }
    }

    /// Wait for the end of the injected group.
    pub fn wait_eoic<B: Bus>(&self, bus: &mut B) -> (r: Result<(), AdcError>)
        ensures
            match r {
                Ok(_) => reg::did(*old(bus), *final(bus), flag_step(self.place(), 4)),
                Err(e) => e == AdcError::Timeout && reg::stuck(
                    *old(bus),
                    *final(bus),
                    flag_step(self.place(), 4),
                ),
            },
    {
        self.wait_stat(bus, STAT_EOIC)
    }

    /// Read an injected result; `n` counts modulo four.
    pub fn read_injected_data<B: Bus>(&self, bus: &mut B, n: u8) -> (r: u16)
        ensures
            reg::did(
                *old(bus),
                *final(bus),
                Step::Load {
                    addr: reg::at(self.place(), injected_data(n)),
                    value: reg::last_load(final(bus).log()),
                },
            ),
            r == reg::last_load(final(bus).log()) & 0xFFFF,
    {
        let k: u32 = (n % 4) as u32;
        let v: u32 = self.reg(IDATA0 + 4 * k).read(bus);
        low_half(v)
    }

    /// Wait for a regular conversion to end and read its result.
    pub fn read_data<B: Bus>(&self, bus: &mut B) -> (r: Result<u16, AdcError>)
        ensures
            read_out(*old(bus), *final(bus), self.place(), r),
    {
        broadcast use reg::ran_then;

        let ghost b0 = *bus;
        proof {
            reg::ran_nothing(*bus);
        }
        let ended: Result<(), AdcError> = self.wait_eoc(bus);
        if ended.is_err() {
            return Err(AdcError::Timeout);
        }
        let v: u32 = self.reg(RDATA).read(bus);
        Ok(low_half(v))
    }

    /// Convert one channel: point the sequence at it, start the conversion, and read the result.
    pub fn read_channel<B: Bus>(&self, bus: &mut B, channel: u8) -> (r: Result<u16, AdcError>)
        ensures
            exists|m: B|
                {
                    &&& reg::ran(
                        *old(bus),
                        m,
                        rank_script(self.place(), 0, channel).push(
                            ctl1_step(self.place(), 0x40_0000, 0x40_0000),
                        ),
                    )
                    &&& #[trigger] read_out(m, *final(bus), self.place(), r)
                },
    {
        broadcast use reg::ran_then;

        self.set_regular_rank(bus, 0, channel);
        self.software_trigger(bus);
        self.read_data(bus)
    }

    /// The address of the register block.
    pub fn base(&self) -> (r: u32)
        ensures
            r == self.place(),
    {
        self.base
    }

    /// Set the length of the regular sequence; zero counts as one.
    pub fn set_regular_length<B: Bus>(&self, bus: &mut B, len: u8)
        ensures
            reg::did(*old(bus), *final(bus), length_step(self.place(), len)),
    {
        let rl: u32 = if len == 0 {
            0
        } else {
            len as u32 - 1
        };
        self.reg(RSQ0).modify(bus, RSQ0_RL, rl << 20);
    }

    /// Give a rank of the regular sequence its channel.
    pub fn set_regular_rank<B: Bus>(&self, bus: &mut B, rank: u8, channel: u8)
        ensures
            reg::ran(*old(bus), *final(bus), rank_script(self.place(), rank, channel)),
    {
        proof {
            reg::ran_nothing(*bus);
        }
        let r: u32 = rank as u32;
        let (offset, shift): (u32, u32) = if r <= 5 {
            (RSQ2, 5 * r)
        } else if r <= 11 {
            (RSQ1, 5 * (r - 6))
        } else if r <= 15 {
            (RSQ0, 5 * (r - 12))
        } else {
            return ;
        };
        let mask: u32 = RSQ_FIELD << shift;
        let bits: u32 = (channel as u32 & RSQ_FIELD) << shift;
        self.reg(offset).modify(bus, mask, bits);
        proof {
            reg::ran_one(
                *old(bus),
                *bus,
                Step::Modify { addr: reg::at(self.base, offset), mask, bits },
            );
        }
    }

    /// Set the length of the injected sequence; zero counts as one.
    pub fn set_injected_length<B: Bus>(&self, bus: &mut B, len: u8)
        ensures
            reg::did(*old(bus), *final(bus), injected_length_step(self.place(), len)),
    {
        let il: u32 = if len == 0 {
            0
        } else {
            len as u32 - 1
        };
        self.reg(ISQ).modify(bus, ISQ_IL, il << 20);
    }

    /// Give a rank of an injected sequence of length `len` its channel.
    pub fn set_injected_rank<B: Bus>(&self, bus: &mut B, rank: u8, channel: u8, len: u8)
        requires
            len <= MAX_INJECTED,
            rank < at_least_one(len),
        ensures
            reg::did(*old(bus), *final(bus), injected_rank_step(self.place(), rank, channel, len)),
    {
        let il: u32 = if len == 0 {
            0
        } else {
            len as u32 - 1
        };
        let shift: u32 = 15 - (il - rank as u32) * 5;
        self.reg(ISQ).modify(bus, RSQ_FIELD << shift, (channel as u32 & RSQ_FIELD) << shift);
    }

    /// Give a channel its sample time.
    pub fn set_sample_time<B: Bus>(&self, bus: &mut B, channel: u8, sample_time: u8)
        ensures
            reg::ran(*old(bus), *final(bus), sample_script(self.place(), channel, sample_time)),
    {
        proof {
            reg::ran_nothing(*bus);
        }
        let c: u32 = channel as u32;
        let (offset, shift): (u32, u32) = if c < 10 {
            (SAMPT1, 3 * c)
        } else if c < 18 {
            (SAMPT0, 3 * (c - 10))
        } else {
            return ;
        };
        let mask: u32 = SAMPT_FIELD << shift;
        let bits: u32 = (sample_time as u32 & SAMPT_FIELD) << shift;
        self.reg(offset).modify(bus, mask, bits);
        proof {
            reg::ran_one(
                *old(bus),
                *bus,
                Step::Modify { addr: reg::at(self.base, offset), mask, bits },
            );
        }
    }

    fn wait_clear<B: Bus>(&self, bus: &mut B, mask: u32) -> (r: Result<(), AdcError>)
        ensures
            match r {
                Ok(_) => reg::did(*old(bus), *final(bus), clear_step(self.place(), mask)),
                Err(e) => e == AdcError::Timeout && reg::stuck(
                    *old(bus),
                    *final(bus),
                    clear_step(self.place(), mask),
                ),
            },
    {
        match self.reg(CTL1).poll(bus, Want::Low { mask }, 0, ADC_TIMEOUT as u64) {
            Ok(_) => Ok(()),
            Err(_) => Err(AdcError::Timeout),
        }
    }

    fn wait_stat<B: Bus>(&self, bus: &mut B, flag: u32) -> (r: Result<(), AdcError>)
        ensures
            match r {
                Ok(_) => reg::did(*old(bus), *final(bus), flag_step(self.place(), flag)),
                Err(e) => e == AdcError::Timeout && reg::stuck(
                    *old(bus),
                    *final(bus),
                    flag_step(self.place(), flag),
                ),
            },
    {
        match self.reg(STAT).poll(bus, Want::High { mask: flag }, 0, ADC_TIMEOUT as u64) {
            Ok(_) => Ok(()),
            Err(_) => Err(AdcError::Timeout),
        }
    }

    fn wait_eoc<B: Bus>(&self, bus: &mut B) -> (r: Result<(), AdcError>)
        ensures
            match r {
                Ok(_) => reg::did(*old(bus), *final(bus), flag_step(self.place(), STAT_EOC)),
                Err(e) => e == AdcError::Timeout && reg::stuck(
                    *old(bus),
                    *final(bus),
                    flag_step(self.place(), STAT_EOC),
                ),
            },
    {
        self.wait_stat(bus, STAT_EOC)
    }

    fn reg(&self, offset: u32) -> (r: Reg32)
        ensures
            r.addr == reg::at(self.place(), offset),
    {
        Reg32::new(self.base, offset)
    }
}

/// What bringing up an injected sequence comes to.
pub open spec fn injected_brought_up<B: Bus>(
    b0: B,
    b1: B,
    base: u32,
    channels: Seq<(u8, u8)>,
    left_aligned: bool,
    etsic: u32,
    r: Result<Adc, AdcError>,
) -> bool {
    exists|m: B, c: Result<(), AdcError>|
        {
            &&& reg::ran(b0, m, injected_script(base, channels, left_aligned, etsic))
            &&& #[trigger] calibrated(m, b1, base, c)
            &&& match r {
                Ok(dev) => c is Ok && dev.place() == base,
                Err(e) => c is Err && c->Err_0 == e,
            }
        }
}

/// Where an injected result is read; the index counts modulo four.
pub open spec fn injected_data(n: u8) -> u32 {
    (IDATA0 + 4 * (n % 4)) as u32
}

pub(crate) fn low_half(v: u32) -> (r: u16)
    ensures
        r == v & 0xFFFF,
{
    proof {
        bits::low_half(v);
    }
    (v & 0xFFFF) as u16
}

/// The converters a part has: one, or two that convert side by side.
#[derive(Debug, Clone, Copy, PartialEq, Eq, Structural)]
pub enum AdcCapability {
    /// One converter.
    Single(Adc),
    /// Two converters.
    Dual { primary: Adc, secondary: Adc },
}

// --- laws -------------------------------------------------------------------------------------

/// No two ranks of the regular sequence share a bit, and none shares one with the length.
pub proof fn law_ranks_are_apart(r1: u8, r2: u8)
    requires
        r1 <= 15,
        r2 <= 15,
        r1 != r2,
    ensures
        rank_place(r1).0 != rank_place(r2).0 || (RSQ_FIELD << rank_place(r1).1) & (RSQ_FIELD
            << rank_place(r2).1) == 0,
        rank_place(r1).0 == RSQ0 ==> (RSQ_FIELD << rank_place(r1).1) & RSQ0_RL == 0,
{
    let (a, b) = (rank_place(r1).1, rank_place(r2).1);
    bits::five_apart(RSQ_FIELD, RSQ_FIELD, a, b);
    let m = RSQ_FIELD << a;
    assert(m & 0xFFF0_0000 == 0 ==> m & 0x00F0_0000 == 0) by (bit_vector);
}

/// No two channels share a bit of their sample times.
pub proof fn law_sample_times_are_apart(c1: u8, c2: u8)
    requires
        c1 < 18,
        c2 < 18,
        c1 != c2,
    ensures
        sample_place(c1).0 != sample_place(c2).0 || (SAMPT_FIELD << sample_place(c1).1) & (
        SAMPT_FIELD << sample_place(c2).1) == 0,
{
    bits::three_apart(SAMPT_FIELD, SAMPT_FIELD, sample_place(c1).1, sample_place(c2).1);
}

/// A configured converter: single conversions, right-aligned, started by software, on; the
/// internal channels on if the channel is one. Rank zero holds the channel, and the channel its
/// sample time.
pub proof fn law_configured_registers(base: u32, channel: u8, sample_time: u8, w: u32)
    requires
        channel < 18,
    ensures
        ({
            let script = configure_script(base, channel, sample_time);
            let ctl1 = reg::word_after(script, reg::at(base, CTL1), w);
            &&& reg::word_after(script, reg::at(base, CTL0), w) == w & !CTL0_SM
            &&& ctl1 & (CTL1_CTN | CTL1_DAL) == 0
            &&& ctl1 & CTL1_ETSRC == ETSRC_SOFTWARE
            &&& ctl1 & CTL1_ETERC == CTL1_ETERC
            &&& ctl1 & CTL1_ADCON == CTL1_ADCON
            &&& ctl1 & CTL1_TSVREN == (if internal(channel) {
                CTL1_TSVREN
            } else {
                w & CTL1_TSVREN
            })
            &&& reg::word_after(script, reg::at(base, RSQ0), w) & RSQ0_RL == 0
            &&& reg::word_after(script, reg::at(base, RSQ2), w) & RSQ_FIELD == channel
            &&& reg::word_after(script, reg::at(base, sample_place(channel).0), w) & (SAMPT_FIELD
                << sample_place(channel).1) == (sample_time as u32 & SAMPT_FIELD) << sample_place(
                channel,
            ).1
        }),
{
    broadcast use reg::group_after;

    let s1 = configure_lead(base);
    let rank = rank_script(base, 0, channel);
    let sample = sample_script(base, channel, sample_time);
    let ints = internal_script(base, internal(channel));
    let close = configure_close(base);
    let (offset, shift) = sample_place(channel);
    let field = sample_time as u32 & SAMPT_FIELD;
    let places = Seq::<u32>::empty().push(reg::at(base, CTL0)).push(reg::at(base, CTL1)).push(
        reg::at(base, RSQ0),
    ).push(reg::at(base, RSQ2)).push(reg::at(base, offset));
    assert forall|k: int| 0 <= k < 5 implies #[trigger] reg::word_after(
        configure_script(base, channel, sample_time),
        places[k],
        w,
    ) == reg::word_after(
        close,
        places[k],
        reg::word_after(
            ints,
            places[k],
            reg::word_after(
                sample,
                places[k],
                reg::word_after(rank, places[k], reg::word_after(s1, places[k], w)),
            ),
        ),
    ) by {
        let x = places[k];
        reg::word_after_append(s1, rank, x, w);
        reg::word_after_append(s1 + rank, sample, x, w);
        reg::word_after_append(s1 + rank + sample, ints, x, w);
        reg::word_after_append(s1 + rank + sample + ints, close, x, w);
    }
    assert(places[0] == reg::at(base, CTL0) && places[1] == reg::at(base, CTL1));
    assert(places[2] == reg::at(base, RSQ0) && places[3] == reg::at(base, RSQ2));
    assert(places[4] == reg::at(base, offset));
    bits::merge_fields(w, CTL0_SM, 0, 0);
    let c = channel as u32;
    assert(reg::merge(w, 0x1Fu32 << 0u32, (c & 0x1F) << 0u32) & 0x1F == c) by (bit_vector)
        requires
            c < 18,
    ;
    assert(reg::merge(w, 0x00F0_0000, 0u32 << 20u32) & 0x00F0_0000 == 0) by (bit_vector);
    assert(field < 8) by {
        let t = sample_time as u32;
        assert(t & 7 < 8) by (bit_vector);
    }
    bits::three_apart(field, 0, shift, shift);
    bits::merge_fields(w, SAMPT_FIELD << shift, field << shift, 0);
    configured_ctl1(w, internal(channel));
}

proof fn configured_ctl1(w: u32, any: bool)
    ensures
        ({
            let a = reg::merge(reg::merge(w, CTL1_CTN, 0), CTL1_DAL, 0);
            let b = if any {
                reg::merge(a, CTL1_TSVREN, CTL1_TSVREN)
            } else {
                a
            };
            let r = reg::merge(
                reg::merge(
                    reg::merge(b, CTL1_ETSRC, ETSRC_SOFTWARE),
                    CTL1_ETERC,
                    CTL1_ETERC,
                ),
                CTL1_ADCON,
                CTL1_ADCON,
            );
            &&& r & (CTL1_CTN | CTL1_DAL) == 0
            &&& r & CTL1_ETSRC == ETSRC_SOFTWARE
            &&& r & CTL1_ETERC == CTL1_ETERC
            &&& r & CTL1_ADCON == CTL1_ADCON
            &&& r & CTL1_TSVREN == (if any {
                CTL1_TSVREN
            } else {
                w & CTL1_TSVREN
            })
        }),
{
    assert({
        let a = reg::merge(reg::merge(w, CTL1_CTN, 0), CTL1_DAL, 0);
        let b = if any {
            reg::merge(a, CTL1_TSVREN, CTL1_TSVREN)
        } else {
            a
        };
        let r = reg::merge(
            reg::merge(reg::merge(b, CTL1_ETSRC, ETSRC_SOFTWARE), CTL1_ETERC, CTL1_ETERC),
            CTL1_ADCON,
            CTL1_ADCON,
        );
        r & (CTL1_CTN | CTL1_DAL) == 0 && r & CTL1_ETSRC == ETSRC_SOFTWARE && r & CTL1_ETERC
            == CTL1_ETERC && r & CTL1_ADCON == CTL1_ADCON && r & CTL1_TSVREN == (if any {
            CTL1_TSVREN
        } else {
            w & CTL1_TSVREN
        })
    }) by (bit_vector);
}

/// The sequence register after the first `n` ranks: the length is untouched, and each of those
/// ranks holds its channel.
proof fn injected_ranks_hold(base: u32, channels: Seq<(u8, u8)>, n: nat, w: u32, k: int)
    requires
        1 <= channels.len() <= MAX_INJECTED,
        n <= channels.len(),
        0 <= k < n,
    ensures
        ({
            let isq = reg::word_after(injected_ranks(base, channels, n), reg::at(base, ISQ), w);
            let shift = injected_shift(k as u8, channels.len() as u8);
            &&& isq & ISQ_IL == w & ISQ_IL
            &&& isq & (RSQ_FIELD << shift) == (channels[k].0 as u32 & RSQ_FIELD) << shift
        }),
    decreases n,
{
    broadcast use reg::group_after;

    let len = channels.len() as u8;
    let x = reg::at(base, ISQ);
    let (channel, sample_time) = channels[n - 1];
    let before = injected_ranks(base, channels, (n - 1) as nat);
    let step = injected_rank_step(base, (n - 1) as u8, channel, len);
    let sample = sample_script(base, channel, sample_time);
    let u = reg::word_after(before, x, w);
    reg::word_after_append(before.push(step), sample, x, w);
    let a = injected_shift((n - 1) as u8, len);
    let b = injected_shift(k as u8, len);
    let f = channel as u32 & RSQ_FIELD;
    let c = channel as u32;
    assert(c & 0x1F < 32) by (bit_vector);
    let isq = reg::word_after(injected_ranks(base, channels, n), x, w);
    assert(isq == reg::merge(u, RSQ_FIELD << a, f << a));
    bits::five_apart(RSQ_FIELD, RSQ_FIELD, a, b);
    bits::five_apart(f, RSQ_FIELD, a, b);
    bits::merge_fields(u, RSQ_FIELD << a, f << a, RSQ_FIELD << b);
    bits::merge_fields(u, RSQ_FIELD << a, f << a, ISQ_IL);
    let m = RSQ_FIELD << a;
    assert(m & 0xFFF0_0000 == 0 ==> 0x0030_0000 & m == 0) by (bit_vector);
    let (p, q) = (RSQ_FIELD << a, RSQ_FIELD << b);
    assert(p & q == q & p) by (bit_vector);
    if k < n - 1 {
        injected_ranks_hold(base, channels, (n - 1) as nat, w, k);
    } else if n > 1 {
        injected_ranks_hold(base, channels, (n - 1) as nat, w, 0);
    } else {
        assert(before =~= Seq::empty());
    }
}

/// A configured injected sequence: the sequence register holds its length, and every rank holds
/// its channel, ending at the top field.
pub proof fn law_injected_sequence(
    base: u32,
    channels: Seq<(u8, u8)>,
    left_aligned: bool,
    etsic: u32,
    w: u32,
    k: int,
)
    requires
        1 <= channels.len() <= MAX_INJECTED,
        0 <= k < channels.len(),
    ensures
        ({
            let isq = reg::word_after(
                injected_script(base, channels, left_aligned, etsic),
                reg::at(base, ISQ),
                w,
            );
            let shift = injected_shift(k as u8, channels.len() as u8);
            &&& isq & ISQ_IL == ((channels.len() - 1) as u32) << 20
            &&& isq & (RSQ_FIELD << shift) == (channels[k].0 as u32 & RSQ_FIELD) << shift
        }),
{
    broadcast use reg::group_after;

    let n = channels.len();
    let x = reg::at(base, ISQ);
    let lead = injected_lead(base, n as u8, left_aligned);
    let ranks = injected_ranks(base, channels, n);
    let ints = internal_script(base, any_internal(channels, n));
    let close = injected_close(base, etsic);
    reg::word_after_append(lead, ranks, x, w);
    reg::word_after_append(lead + ranks, ints, x, w);
    reg::word_after_append(lead + ranks + ints, close, x, w);
    let u = reg::word_after(lead, x, w);
    injected_ranks_hold(base, channels, n, u, k);
    let il = (n - 1) as u32;
    assert(u == reg::merge(w, ISQ_IL, il << 20));
    assert(reg::merge(w, 0x0030_0000, il << 20) & 0x0030_0000 == il << 20) by (bit_vector)
        requires
            il < 4,
    ;
}

proof fn ranks_leave(base: u32, channels: Seq<(u8, u8)>, n: nat, offset: u32, w: u32)
    requires
        n <= channels.len(),
        offset == 0x04 || offset == 0x08,
    ensures
        reg::word_after(injected_ranks(base, channels, n), reg::at(base, offset), w) == w,
    decreases n,
{
    broadcast use reg::group_after;

    if n > 0 {
        ranks_leave(base, channels, (n - 1) as nat, offset, w);
        let (channel, sample_time) = channels[n - 1];
        let step = injected_rank_step(base, (n - 1) as u8, channel, channels.len() as u8);
        let before = injected_ranks(base, channels, (n - 1) as nat);
        reg::word_after_append(
            before.push(step),
            sample_script(base, channel, sample_time),
            reg::at(base, offset),
            w,
        );
    }
}

proof fn injected_ctl1(w: u32, dal: u32, etsic: u32, any: bool)
    by (bit_vector)
    requires
        dal == 0 || dal == 0x800,
    ensures
        ({
            let a = reg::merge(w, 0x800, dal);
            let b = if any {
                reg::merge(a, 0x80_0000, 0x80_0000)
            } else {
                a
            };
            let r = reg::merge(
                reg::merge(reg::merge(b, 0x7000, etsic << 12), 0x8000, 0x8000),
                1,
                1,
            );
            r & 0x800 == dal && r & 0x7000 == 4096 * (etsic % 8) && r & 0x8000 == 0x8000 && r & 1 == 1
                && r & 0x80_0000 == (if any {
                0x80_0000
            } else {
                w & 0x80_0000
            }) && r & 0xFF7F_07FE == w & 0xFF7F_07FE && reg::merge(w, 0x80, 0x80) == w | 0x80
        }),
{
}

/// The control registers of a converter with an injected sequence: the results are left-aligned
/// (bit 11 of the second control register) exactly where that was asked for, the trigger source
/// (bits 12 to 14) is the one asked for and enabled (bit 15), the converter is on (bit 0), the
/// internal channels are on (bit 23) if one is converted, and the end of the group interrupts
/// (bit 7 of the first). No other bit changes.
pub proof fn law_injected_control(
    base: u32,
    channels: Seq<(u8, u8)>,
    left_aligned: bool,
    etsic: u32,
    w: u32,
)
    requires
        channels.len() <= 4,
    ensures
        ({
            let script = injected_script(base, channels, left_aligned, etsic);
            let ctl0 = reg::word_after(script, reg::at(base, 0x04), w);
            let ctl1 = reg::word_after(script, reg::at(base, 0x08), w);
            &&& ctl1 & 0x800 == (if left_aligned {
                0x800u32
            } else {
                0
            })
            &&& ctl1 & 0x7000 == 4096 * (etsic % 8)
            &&& ctl1 & 0x8000 == 0x8000
            &&& ctl1 & 1 == 1
            &&& ctl1 & 0x80_0000 == (if exists|k: int|
                0 <= k < channels.len() && 16 <= (#[trigger] channels[k]).0 <= 17 {
                0x80_0000u32
            } else {
                w & 0x80_0000
            })
            &&& ctl1 & 0xFF7F_07FE == w & 0xFF7F_07FE
            &&& ctl0 == w | 0x80
        }),
{
    broadcast use reg::group_after;

    let n = channels.len();
    let lead = injected_lead(base, n as u8, left_aligned);
    let ranks = injected_ranks(base, channels, n);
    let any = any_internal(channels, n);
    let ints = internal_script(base, any);
    let close = injected_close(base, etsic);
    let (x0, x1) = (reg::at(base, 0x04), reg::at(base, 0x08));
    reg::word_after_append(lead, ranks, x0, w);
    reg::word_after_append(lead + ranks, ints, x0, w);
    reg::word_after_append(lead + ranks + ints, close, x0, w);
    reg::word_after_append(lead, ranks, x1, w);
    reg::word_after_append(lead + ranks, ints, x1, w);
    reg::word_after_append(lead + ranks + ints, close, x1, w);
    ranks_leave(base, channels, n, 0x04, reg::word_after(lead, x0, w));
    ranks_leave(base, channels, n, 0x08, reg::word_after(lead, x1, w));
    let dal: u32 = if left_aligned {
        0x800
    } else {
        0
    };
    injected_ctl1(w, dal, etsic, any);
    if any {
        let k = choose|k: int| 0 <= k < n && internal((#[trigger] channels[k]).0);
        assert(16 <= channels[k].0 <= 17);
    } else {
        assert forall|k: int| 0 <= k < n implies !(16 <= (#[trigger] channels[k]).0 <= 17) by {
            assert(!internal(channels[k].0));
        }
    }
}

/// The sequence register of an injected sequence: bits 20 and 21 count its channels from one, and
/// of the four fields of five bits the last ones hold the channels, in order, so that the sequence
/// ends at the top field.
pub proof fn law_injected_fields(
    base: u32,
    channels: Seq<(u8, u8)>,
    left_aligned: bool,
    etsic: u32,
    w: u32,
    k: int,
)
    requires
        1 <= channels.len() <= 4,
        0 <= k < channels.len(),
    ensures
        ({
            let isq = reg::word_after(
                injected_script(base, channels, left_aligned, etsic),
                reg::at(base, 0x38),
                w,
            );
            &&& (isq >> 20) & 3 == channels.len() - 1
            &&& (isq >> ((5 * (4 - channels.len() + k)) as u32)) & 0x1F == channels[k].0 % 32
        }),
{
    law_injected_sequence(base, channels, left_aligned, etsic, w, k);
    let isq = reg::word_after(
        injected_script(base, channels, left_aligned, etsic),
        reg::at(base, 0x38),
        w,
    );
    let il = (channels.len() - 1) as u32;
    let c = channels[k].0 as u32;
    bits::small_fields(il, c, (5 * (4 - channels.len() + k)) as u32);
    bits::small_fields(il, c, 20);
    bits::field_read(isq, 3, il, 20);
    bits::field_read(isq, 0x1F, c, (5 * (4 - channels.len() + k)) as u32);
    bits::field_read(isq, 0x1F, c & 0x1F, (5 * (4 - channels.len() + k)) as u32);
}

/// Rank `rank` of the regular sequence is a field of five bits: the first six ranks lie in the
/// register at 0x34, the next six at 0x30 and the last four at 0x2C, lowest first. Setting a rank
/// puts the channel there and changes nothing else; there are sixteen ranks.
pub proof fn law_rank_fields(base: u32, rank: u8, channel: u8, w: u32, x: u32)
    ensures
        rank >= 16 ==> rank_script(base, rank, channel) == Seq::<Step>::empty(),
        rank < 16 ==> ({
            let offset: u32 = if rank < 6 {
                0x34
            } else if rank < 12 {
                0x30
            } else {
                0x2C
            };
            let shift = (5 * (rank % 6)) as u32;
            let script = rank_script(base, rank, channel);
            let after = reg::word_after(script, reg::at(base, offset), w);
            &&& (after >> shift) & 0x1F == channel % 32
            &&& after & !(0x1Fu32 << shift) == w & !(0x1Fu32 << shift)
            &&& x != reg::at(base, offset) ==> reg::word_after(script, x, w) == w
        }),
{
    broadcast use reg::group_after;

    if rank < 16 {
        let shift = (5 * (rank % 6)) as u32;
        let c = channel as u32;
        bits::small_fields(0, c, shift);
        bits::field_read(w, 0x1F, c, shift);
        bits::field_read(w, 0x1F, c & 0x1F, shift);
        bits::merge_fields(w, 0x1Fu32 << shift, (c & 0x1F) << shift, 0);
    }
}

/// The sample time of a channel is a field of three bits: the first ten channels have theirs in the
/// register at 0x10, the others at 0x0C, lowest first. Setting it puts the time there and changes
/// nothing else; there are eighteen channels.
pub proof fn law_sample_fields(base: u32, channel: u8, sample_time: u8, w: u32, x: u32)
    ensures
        channel >= 18 ==> sample_script(base, channel, sample_time) == Seq::<Step>::empty(),
        channel < 18 ==> ({
            let offset: u32 = if channel < 10 {
                0x10
            } else {
                0x0C
            };
            let shift = (3 * (channel % 10)) as u32;
            let script = sample_script(base, channel, sample_time);
            let after = reg::word_after(script, reg::at(base, offset), w);
            &&& (after >> shift) & 7 == sample_time % 8
            &&& after & !(7u32 << shift) == w & !(7u32 << shift)
            &&& x != reg::at(base, offset) ==> reg::word_after(script, x, w) == w
        }),
{
    broadcast use reg::group_after;

    if channel < 18 {
        let shift = (3 * (channel % 10)) as u32;
        let t = sample_time as u32;
        bits::small_fields(t, 0, shift);
        bits::field_read(w, 7, t, shift);
        bits::field_read(w, 7, t & 7, shift);
        bits::merge_fields(w, 7u32 << shift, (t & 7) << shift, 0);
    }
}

/// The length of the regular sequence less one lies in bits 20 to 23 of the register at 0x2C, and
/// that of the injected one in bits 20 and 21 of the register at 0x38; no length counts as one. No
/// other bit changes.
pub proof fn law_length_field(base: u32, len: u8, w: u32)
    ensures
        ({
            let regular = reg::word_step(length_step(base, len), reg::at(base, 0x2C), w);
            let injected = reg::word_step(injected_length_step(base, len), reg::at(base, 0x38), w);
            let less = if len == 0 {
                0int
            } else {
                len - 1
            };
            &&& (regular >> 20) & 15 == less % 16
            &&& regular & !0x00F0_0000u32 == w & !0x00F0_0000u32
            &&& (injected >> 20) & 3 == less % 4
            &&& injected & !0x0030_0000u32 == w & !0x0030_0000u32
        }),
{
    let l: u32 = if len == 0 {
        0
    } else {
        (len - 1) as u32
    };
    bits::small_fields(l, 0, 20);
    bits::field_read(w, 15, l, 20);
    bits::field_read(w, 3, l, 20);
    bits::merge_fields(w, 0x00F0_0000, l << 20, 0);
    bits::merge_fields(w, 0x0030_0000, l << 20, 0);
}

/// In an injected sequence of `len` channels, rank `rank` lies in the field of five bits of the
/// register at 0x38 that is as far below the top one as the rank is below the last. Setting it puts
/// the channel there and changes nothing else.
pub proof fn law_injected_rank_field(base: u32, rank: u8, channel: u8, len: u8, w: u32)
    requires
        len <= 4,
        rank < at_least_one(len),
    ensures
        ({
            let n = if len == 0 {
                1int
            } else {
                len as int
            };
            let shift = (5 * (4 - n + rank)) as u32;
            let after = reg::word_step(
                injected_rank_step(base, rank, channel, len),
                reg::at(base, 0x38),
                w,
            );
            &&& (after >> shift) & 0x1F == channel % 32
            &&& after & !(0x1Fu32 << shift) == w & !(0x1Fu32 << shift)
        }),
{
    let shift = injected_shift(rank, len);
    let c = channel as u32;
    bits::small_fields(0, c, shift);
    bits::field_read(w, 0x1F, c, shift);
    bits::field_read(w, 0x1F, c & 0x1F, shift);
    bits::merge_fields(w, 0x1Fu32 << shift, (c & 0x1F) << shift, 0);
}

proof fn samples_stay(base: u32, channel: u8, other: u8, sample_time: u8, w: u32)
    requires
        channel < 18,
        channel != other,
    ensures
        ({
            let (offset, shift) = sample_place(channel);
            reg::word_after(sample_script(base, other, sample_time), reg::at(base, offset), w) & (7u32
                << shift) == w & (7u32 << shift)
        }),
{
    broadcast use reg::group_after;

    if other < 18 {
        let (a, b) = (sample_place(channel).1, sample_place(other).1);
        let t = sample_time as u32;
        bits::three_apart(7, 7, a, b);
        bits::merge_fields(w, 7u32 << b, (t & 7) << b, 7u32 << a);
    }
}

proof fn injected_samples_hold(base: u32, channels: Seq<(u8, u8)>, n: nat, w: u32, k: int)
    requires
        n <= channels.len(),
        0 <= k < n,
        channels[k].0 < 18,
        forall|j: int| k < j < n ==> (#[trigger] channels[j]).0 != channels[k].0,
    ensures
        ({
            let (offset, shift) = sample_place(channels[k].0);
            let after = reg::word_after(
                injected_ranks(base, channels, n),
                reg::at(base, offset),
                w,
            );
            (after >> shift) & 7 == channels[k].1 % 8
        }),
    decreases n,
{
    broadcast use reg::group_after;

    let (offset, shift) = sample_place(channels[k].0);
    let x = reg::at(base, offset);
    let (channel, sample_time) = channels[n - 1];
    let before = injected_ranks(base, channels, (n - 1) as nat);
    let step = injected_rank_step(base, (n - 1) as u8, channel, channels.len() as u8);
    let sample = sample_script(base, channel, sample_time);
    let u = reg::word_after(before, x, w);
    reg::word_after_append(before.push(step), sample, x, w);
    assert(reg::word_after(before.push(step), x, w) == u);
    let after = reg::word_after(injected_ranks(base, channels, n), x, w);
    if k == n - 1 {
        law_sample_fields(base, channel, sample_time, u, x);
    } else {
        injected_samples_hold(base, channels, (n - 1) as nat, w, k);
        samples_stay(base, channels[k].0, channel, sample_time, u);
        bits::small_fields(0, 0, shift);
        bits::same_field(after, u, 7, shift);
    }
}

/// Every channel of an injected sequence has the sample time given for it, the last where it is given
/// more than once.
pub proof fn law_injected_samples(
    base: u32,
    channels: Seq<(u8, u8)>,
    left_aligned: bool,
    etsic: u32,
    w: u32,
    k: int,
)
    requires
        0 <= k < channels.len() <= 4,
        channels[k].0 < 18,
        forall|j: int| k < j < channels.len() ==> (#[trigger] channels[j]).0 != channels[k].0,
    ensures
        ({
            let c = channels[k].0;
            let offset: u32 = if c < 10 {
                0x10
            } else {
                0x0C
            };
            let after = reg::word_after(
                injected_script(base, channels, left_aligned, etsic),
                reg::at(base, offset),
                w,
            );
            (after >> ((3 * (c % 10)) as u32)) & 7 == channels[k].1 % 8
        }),
{
    broadcast use reg::group_after;

    let n = channels.len();
    let x = reg::at(base, sample_place(channels[k].0).0);
    let lead = injected_lead(base, n as u8, left_aligned);
    let ranks = injected_ranks(base, channels, n);
    let ints = internal_script(base, any_internal(channels, n));
    let close = injected_close(base, etsic);
    reg::word_after_append(lead, ranks, x, w);
    reg::word_after_append(lead + ranks, ints, x, w);
    reg::word_after_append(lead + ranks + ints, close, x, w);
    injected_samples_hold(base, channels, n, reg::word_after(lead, x, w), k);
}

/// The result of injected rank `n`, modulo four, is read `4 * n` behind 0x3C. The waits look at the
/// status, the starts go to the second control register.
pub proof fn law_places(base: u32, n: u8, mask: u32, w: u32)
    ensures
        injected_data(n) == 0x3C + 4 * (n % 4),
        flag_step(base, mask) == (Step::Await {
            addr: reg::at(base, 0),
            want: Want::High { mask },
            abort: 0,
            limit: 100_000,
        }),
        reg::word_step(ctl1_step(base, mask, mask), reg::at(base, 0x08), w) == w | mask,
{
    bits::merge_fields(w, mask, 0, 0);
}

/// A calibration that succeeds ends with a look at the second control register that finds the
/// calibration over (bit 2 clear); one that times out ends with 100,000 looks that all found its
/// reset (bit 3) or itself (bit 2) still going on.
pub proof fn law_calibration_outcome<B: Bus>(b0: B, b1: B, base: u32, r: Result<(), AdcError>)
    requires
        calibrated(b0, b1, base, r),
    ensures
        ({
            let log = b1.log();
            let n = log.len() as int;
            let ctl1 = reg::at(base, 0x08);
            match r {
                Ok(_) => log.last() matches reg::Access::Load { addr, value } && addr == ctl1 && value
                    & 4 == 0,
                Err(e) => {
                    &&& e is Timeout
                    &&& n > b0.log().len() + 100_000
                    &&& exists|bit: u32|
                        (bit == 4 || bit == 8) && #[trigger] stays_set(log, ctl1, bit)
                },
            }
        }),
{
    let script = calibrate_script(base);
    let log = b1.log();
    let n = log.len() as int;
    match r {
        Ok(_) => {
            let rest = script.drop_last();
            assert(script =~= rest.push(script[3]));
            let m = reg::last_step(b0.log(), log, rest, script[3]);
        },
        Err(e) => {
            let k: int = if reg::broke(b0, b1, script, 1) {
                1
            } else {
                3
            };
            let m = choose|m: B|
                reg::ran(b0, m, script.take(k)) && #[trigger] reg::stuck(m, b1, script[k]);
            let bit: u32 = if k == 1 {
                8
            } else {
                4
            };
            let before = script.take(k - 1);
            assert(script.take(k) =~= before.push(script[k - 1]));
            let z = reg::last_step(b0.log(), m.log(), before, script[k - 1]);
            reg::performs_longer(b0.log(), z, before);
            bits::no_bits(reg::last_load(log));
            assert forall|j: int| n - 100_000 <= j < n implies (
            #[trigger] log[j] matches reg::Access::Load { addr, value } && addr == reg::at(base, 8)
                && value & bit != 0) by {
                reg::law_given_up_wait(
                    m.log(),
                    log,
                    reg::at(base, 8),
                    Want::Low { mask: bit },
                    0,
                    100_000,
                    j,
                );
            }
            assert(stays_set(log, reg::at(base, 8), bit));
        },
    }
}

/// The last 100,000 accesses are looks at the register at `addr` that found a bit set.
pub open spec fn stays_set(log: Seq<reg::Access>, addr: u32, bit: u32) -> bool {
    forall|j: int|
        log.len() - 100_000 <= j < log.len() ==> (#[trigger] log[j] matches reg::Access::Load {
            addr: a,
            value,
        } && a == addr && value & bit != 0)
}

/// A converter configured for one channel, in the places the part has for it: no scan (bit 8 of the
/// first control register); in the second, no continuous conversion (bit 1), right alignment
/// (bit 11), software as the trigger (bits 17 to 19 all set) and the trigger enabled (bit 20), the
/// converter on (bit 0), the internal channels (bit 23) on for channels 16 and 17.
pub proof fn law_configured_control(base: u32, channel: u8, sample_time: u8, w: u32)
    requires
        channel < 18,
    ensures
        ({
            let script = configure_script(base, channel, sample_time);
            let ctl1 = reg::word_after(script, reg::at(base, 0x08), w);
            &&& reg::word_after(script, reg::at(base, 0x04), w) == w & !0x100u32
            &&& ctl1 & 0x802 == 0
            &&& ctl1 & 0x000E_0000 == 0x000E_0000
            &&& ctl1 & 0x0010_0000 == 0x0010_0000
            &&& ctl1 & 1 == 1
            &&& ctl1 & 0x0080_0000 == (if channel >= 16 {
                0x0080_0000u32
            } else {
                w & 0x0080_0000
            })
            &&& reg::word_after(script, reg::at(base, 0x2C), w) & 0x00F0_0000 == 0
            &&& reg::word_after(script, reg::at(base, 0x34), w) & 0x1F == channel
        }),
{
    law_configured_registers(base, channel, sample_time, w);
    bits::small_fields(0, 0, 0);
}

/// Calibration, as the part wants it: the reset bit (3) is set and waited to clear, then the
/// calibration bit (2); each wait looks at its own bit, and a wait that gives up is a timeout.
pub proof fn law_calibration_order(base: u32)
    ensures
        ({
            let script = calibrate_script(base);
            let ctl1 = reg::at(base, 0x08);
            &&& script.len() == 4
            &&& script[0] == (Step::Modify { addr: ctl1, mask: 8, bits: 8 })
            &&& script[1] == (Step::Await {
                addr: ctl1,
                want: Want::Low { mask: 8 },
                abort: 0,
                limit: 100_000,
            })
            &&& script[2] == (Step::Modify { addr: ctl1, mask: 4, bits: 4 })
            &&& script[3] == (Step::Await {
                addr: ctl1,
                want: Want::Low { mask: 4 },
                abort: 0,
                limit: 100_000,
            })
        }),
{
}

/// A reading is the lower half of the data register at 0x4C, loaded right after the end of the
/// conversion (bit 1 of the status) was seen; a reading that times out saw none in 100,000 looks.
pub proof fn law_reading_is_the_data_register<B: Bus>(
    b0: B,
    b1: B,
    base: u32,
    r: Result<u16, AdcError>,
)
    requires
        read_out(b0, b1, base, r),
    ensures
        ({
            let log = b1.log();
            let n = log.len() as int;
            match r {
                Ok(v) => {
                    &&& n >= b0.log().len() + 2
                    &&& log[n - 1] matches reg::Access::Load { addr, value } && addr == reg::at(
                        base,
                        0x4C,
                    ) && v == value & 0xFFFF
                    &&& log[n - 2] matches reg::Access::Load { addr, value } && addr == reg::at(
                        base,
                        0,
                    ) && value & 2 != 0
                },
                Err(e) => {
                    &&& e is Timeout
                    &&& n == b0.log().len() + 100_000
                    &&& forall|j: int|
                        b0.log().len() <= j < n ==> (#[trigger] log[j] matches reg::Access::Load {
                            addr,
                            value,
                        } && addr == reg::at(base, 0) && value & 2 == 0)
                },
            }
        }),
{
    let log = b1.log();
    match r {
        Ok(v) => {
            let first = Seq::<Step>::empty().push(flag_step(base, STAT_EOC));
            let load = Step::Load { addr: reg::at(base, RDATA), value: reg::last_load(log) };
            let m = reg::last_step(b0.log(), log, first, load);
            let z = reg::last_step(b0.log(), m, Seq::<Step>::empty(), flag_step(base, STAT_EOC));
            assert(log[m.len() - 1] == m[m.len() - 1]);
        },
        Err(e) => {
            bits::no_bits(reg::last_load(log));
            assert forall|j: int| b0.log().len() <= j < log.len() implies (
            #[trigger] log[j] matches reg::Access::Load { addr, value } && addr == reg::at(base, 0)
                && value & 2 == 0) by {
                if j < log.len() - 1 {
                    assert(log.drop_last()[j] == log[j]);
                }
            }
        },
    }
}

} // verus!
