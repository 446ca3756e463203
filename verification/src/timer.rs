//! The advanced timer behind the motor bridge.
//!
//! Bringing it up programs the time base, the three half bridges and the protection register, and
//! leaves the main output off: nothing here can switch the bridge on.

use vstd::prelude::*;

use crate::addr;
use crate::bits;
use crate::chip::Chip;
use crate::config::{ClockDiv, OcMode, PwmAlign, PwmChannelConfig, PwmConfig, TrgoSource};
use crate::error::DescriptorError;
use crate::reg::{self, Bus, Reg32, Step};

verus! {

pub const CTL0: u32 = 0x00;

pub const CTL1: u32 = 0x04;

pub const CHCTL0: u32 = 0x18;

pub const CHCTL1: u32 = 0x1C;

pub const CHCTL2: u32 = 0x20;

pub const PSC: u32 = 0x28;

pub const CAR: u32 = 0x2C;

pub const CREP: u32 = 0x30;

pub const CH0CV: u32 = 0x34;

pub const CH1CV: u32 = 0x38;

pub const CH2CV: u32 = 0x3C;

pub const CH3CV: u32 = 0x40;

pub const CCHP: u32 = 0x44;

/// Direction, center mode, reload buffer and clock division.
pub const CTL0_TIMEBASE: u32 = 0x0000_03F0;

/// Reload buffer.
pub const CTL0_ARSE: u32 = 0x0000_0080;

/// Trigger output source.
pub const CTL1_MMC: u32 = 0x0000_0070;

/// Idle levels of the three pairs.
pub const CTL1_IDLE: u32 = 0x0000_3F00;

/// Two channels in PWM mode with buffered compare values.
pub const CHCTL0_PHASES: u32 = 0x0000_6868;

/// The lower channel of CHCTL1, and its setting: as in CHCTL0.
pub const CHCTL1_PHASE: u32 = 0x0000_00FF;

pub const CHCTL1_PHASE_SETTING: u32 = 0x0000_0068;

/// The upper channel of CHCTL1: its direction, buffering and mode.
pub const CHCTL1_TRIGGER: u32 = 0x0000_7B00;

/// Enables and polarities of the three pairs.
pub const CHCTL2_PHASES: u32 = 0x0000_0FFF;

/// Enable of the trigger channel.
pub const CHCTL2_CH3EN: u32 = 0x0000_1000;

/// Off-state of idle and running outputs: driven.
pub const CCHP_OFF_STATES: u32 = 0x0000_0C00;

/// Break input.
pub const CCHP_BRKEN: u32 = 0x0000_1000;

/// Break on a high level.
pub const CCHP_BRKP: u32 = 0x0000_2000;

/// Main output.
pub const CCHP_MOE: u32 = 0x0000_8000;

/// A bit where something holds.
pub open spec fn flag(on: bool, bit: u32) -> u32 {
    if on {
        bit
    } else {
        0
    }
}

fn flag_of(on: bool, bit: u32) -> (r: u32)
    ensures
        r == flag(on, bit),
{
    if on {
        bit
    } else {
        0
    }
}

/// The time base: alignment, reload buffer and clock division.
pub open spec fn timebase(cfg: PwmConfig) -> u32 {
    cfg.align.field() | flag(cfg.arse, CTL0_ARSE) | (cfg.ckdiv.field() << 8)
}

/// The enables and the polarity of one pair: both outputs on, the complement inverted where the
/// polarity is set.
pub open spec fn pair_enable(c: PwmChannelConfig, shift: u32) -> u32 {
    (5u32 | flag(c.polarity, 8)) << shift
}

/// The enables and polarities of the three pairs.
pub open spec fn enables(cfg: PwmConfig) -> u32 {
    pair_enable(cfg.channels[0], 0) | pair_enable(cfg.channels[1], 4) | pair_enable(
        cfg.channels[2],
        8,
    )
}

/// The idle levels of one pair.
pub open spec fn pair_idle(c: PwmChannelConfig, shift: u32) -> u32 {
    (flag(c.idle_high, 1) | flag(c.idle_high_n, 2)) << shift
}

/// The idle levels of the three pairs.
pub open spec fn idles(cfg: PwmConfig) -> u32 {
    pair_idle(cfg.channels[0], 8) | pair_idle(cfg.channels[1], 10) | pair_idle(cfg.channels[2], 12)
}

/// The protection register: dead time, off-states and break input, with the main output off.
pub open spec fn protection(cfg: PwmConfig) -> u32 {
    cfg.dead_time as u32 | CCHP_OFF_STATES | flag(cfg.brk.enabled, CCHP_BRKEN) | flag(
        cfg.brk.level,
        CCHP_BRKP,
    )
}

/// Bringing up the time base, the three pairs and the protection.
pub open spec fn configure_script(base: u32, cfg: PwmConfig) -> Seq<Step> {
    Seq::empty().push(
        Step::Modify { addr: reg::at(base, CTL0), mask: CTL0_TIMEBASE, bits: timebase(cfg) },
    ).push(Step::Store { addr: reg::at(base, PSC), value: cfg.prescaler as u32 }).push(
        Step::Store { addr: reg::at(base, CAR), value: cfg.period as u32 },
    ).push(Step::Store { addr: reg::at(base, CREP), value: cfg.crep as u32 }).push(
        Step::Store { addr: reg::at(base, CHCTL0), value: CHCTL0_PHASES },
    ).push(
        Step::Modify {
            addr: reg::at(base, CHCTL1),
            mask: CHCTL1_PHASE,
            bits: CHCTL1_PHASE_SETTING,
        },
    ).push(
        Step::Modify { addr: reg::at(base, CHCTL2), mask: CHCTL2_PHASES, bits: enables(cfg) },
    ).push(Step::Modify { addr: reg::at(base, CTL1), mask: CTL1_IDLE, bits: idles(cfg) }).push(
        Step::Store { addr: reg::at(base, CCHP), value: protection(cfg) },
    )
}

/// Making channel 3 the trigger, and choosing the trigger output.
pub open spec fn trigger_script(
    base: u32,
    compare: u16,
    oc_mode: OcMode,
    ch_enable: bool,
    trgo: TrgoSource,
) -> Seq<Step> {
    Seq::empty().push(
        Step::Modify {
            addr: reg::at(base, CHCTL1),
            mask: CHCTL1_TRIGGER,
            bits: oc_mode.field() << 12,
        },
    ).push(Step::Store { addr: reg::at(base, CH3CV), value: compare as u32 }).push(
        Step::Modify {
            addr: reg::at(base, CHCTL2),
            mask: CHCTL2_CH3EN,
            bits: flag(ch_enable, CHCTL2_CH3EN),
        },
    ).push(Step::Modify { addr: reg::at(base, CTL1), mask: CTL1_MMC, bits: trgo.field() << 4 })
}

/// An advanced timer.
#[derive(Debug, Clone, Copy, PartialEq, Eq, Structural)]
pub struct PwmTimer {
    base: u32,
}

impl PwmTimer {
    /// The base of the timer.
    pub closed spec fn place(self) -> u32 {
        self.base
    }

    /// The timer at `base`, as it stands.
    pub fn at(base: u32) -> (r: PwmTimer)
        ensures
            r.place() == base,
    {
        PwmTimer { base }
    }

    /// The address of the register block.
    pub fn base(&self) -> (r: u32)
        ensures
            r == self.place(),
    {
        self.base
    }

    /// Bring up the timer of a configuration.
    pub fn configure<B: Bus>(bus: &mut B, chip: &Chip, cfg: &PwmConfig) -> (r: Result<
        PwmTimer,
        DescriptorError,
    >)
        ensures
            match addr::resolved(chip.desc().addrs@, cfg.timer) {
                Err(e) => r == Err::<PwmTimer, _>(e) && *final(bus) == *old(bus),
                Ok(base) => {
                    &&& r matches Ok(timer)
                    &&& timer.place() == base
                    &&& reg::ran(*old(bus), *final(bus), configure_script(base, *cfg))
                },
            },
    {
        match chip.base(cfg.timer) {
            Err(e) => Err(e),
            Ok(base) => {
                let timer = PwmTimer { base };
                timer.program(bus, cfg);
                Ok(timer)
            },
        }
    }

    fn program<B: Bus>(&self, bus: &mut B, cfg: &PwmConfig)
        ensures
            reg::ran(*old(bus), *final(bus), configure_script(self.place(), *cfg)),
    {
        broadcast use reg::ran_then;

        proof {
            reg::ran_nothing(*bus);
        }
        let timebase: u32 = cfg.align.ctl0_bits() | flag_of(cfg.arse, CTL0_ARSE) | (
        cfg.ckdiv.ckdiv_code() << 8);
        self.reg(CTL0).modify(bus, CTL0_TIMEBASE, timebase);
        self.reg(PSC).write(bus, cfg.prescaler as u32);
        self.reg(CAR).write(bus, cfg.period as u32);
        self.reg(CREP).write(bus, cfg.crep as u32);
        self.reg(CHCTL0).write(bus, CHCTL0_PHASES);
        self.reg(CHCTL1).modify(bus, CHCTL1_PHASE, CHCTL1_PHASE_SETTING);
        let enables: u32 = ((5u32 | flag_of(cfg.channels[0].polarity, 8)) << 0u32) | ((5u32
            | flag_of(cfg.channels[1].polarity, 8)) << 4u32) | ((5u32 | flag_of(
            cfg.channels[2].polarity,
            8,
        )) << 8u32);
        self.reg(CHCTL2).modify(bus, CHCTL2_PHASES, enables);
        let idles: u32 = ((flag_of(cfg.channels[0].idle_high, 1) | flag_of(
            cfg.channels[0].idle_high_n,
            2,
        )) << 8u32) | ((flag_of(cfg.channels[1].idle_high, 1) | flag_of(
            cfg.channels[1].idle_high_n,
            2,
        )) << 10u32) | ((flag_of(cfg.channels[2].idle_high, 1) | flag_of(
            cfg.channels[2].idle_high_n,
            2,
        )) << 12u32);
        self.reg(CTL1).modify(bus, CTL1_IDLE, idles);
        let protection: u32 = cfg.dead_time as u32 | CCHP_OFF_STATES | flag_of(
            cfg.brk.enabled,
            CCHP_BRKEN,
        ) | flag_of(cfg.brk.level, CCHP_BRKP);
        self.reg(CCHP).write(bus, protection);
    }

    /// Make channel 3 the trigger at a compare value, and choose the trigger output.
    pub fn configure_trigger<B: Bus>(
        &self,
        bus: &mut B,
        compare: u16,
        oc_mode: OcMode,
        ch_enable: bool,
        trgo: TrgoSource,
    )
        ensures
            reg::ran(
                *old(bus),
                *final(bus),
                trigger_script(self.place(), compare, oc_mode, ch_enable, trgo),
            ),
    {
        broadcast use reg::ran_then;

        proof {
            reg::ran_nothing(*bus);
        }
        self.reg(CHCTL1).modify(bus, CHCTL1_TRIGGER, oc_mode.comctl() << 12);
        self.reg(CH3CV).write(bus, compare as u32);
        self.reg(CHCTL2).modify(bus, CHCTL2_CH3EN, flag_of(ch_enable, CHCTL2_CH3EN));
        self.reg(CTL1).modify(bus, CTL1_MMC, trgo.mmc() << 4);
    }

    fn reg(&self, offset: u32) -> (r: Reg32)
        ensures
            r.addr == reg::at(self.place(), offset),
    {
        Reg32::new(self.base, offset)
    }
}

// --- laws -------------------------------------------------------------------------------------

/// Bringing up the timer leaves the main output off and the trigger channel untouched.
pub proof fn law_configure_leaves_the_output_off(base: u32, cfg: PwmConfig, w: u32)
    ensures
        reg::word_after(configure_script(base, cfg), reg::at(base, CCHP), w) & CCHP_MOE == 0,
        reg::word_after(configure_script(base, cfg), reg::at(base, CH3CV), w) == w,
{
    broadcast use reg::group_after;

    let (d, e, l) = (
        cfg.dead_time as u32,
        flag(cfg.brk.enabled, CCHP_BRKEN),
        flag(cfg.brk.level, CCHP_BRKP),
    );
    bits::no_main_output(d, e, l);
}

/// Configuring the trigger sets its compare value and leaves the phases' compare values and the
/// protection register untouched.
pub proof fn law_trigger_leaves_the_phases(
    base: u32,
    compare: u16,
    oc_mode: OcMode,
    ch_enable: bool,
    trgo: TrgoSource,
    w: u32,
)
    ensures
        ({
            let script = trigger_script(base, compare, oc_mode, ch_enable, trgo);
            &&& reg::word_after(script, reg::at(base, CH3CV), w) == compare
            &&& reg::word_after(script, reg::at(base, CH0CV), w) == w
            &&& reg::word_after(script, reg::at(base, CH1CV), w) == w
            &&& reg::word_after(script, reg::at(base, CH2CV), w) == w
            &&& reg::word_after(script, reg::at(base, CCHP), w) == w
        }),
{
    broadcast use reg::group_after;

}

proof fn configured(base: u32, cfg: PwmConfig, w: u32)
    ensures
        ({
            let script = configure_script(base, cfg);
            let after = |offset: u32| reg::word_after(script, reg::at(base, offset), w);
            &&& after(0x00) == reg::merge(w, CTL0_TIMEBASE, timebase(cfg))
            &&& after(0x28) == cfg.prescaler
            &&& after(0x2C) == cfg.period
            &&& after(0x30) == cfg.crep
            &&& after(0x18) == CHCTL0_PHASES
            &&& after(0x1C) == reg::merge(w, CHCTL1_PHASE, CHCTL1_PHASE_SETTING)
            &&& after(0x20) == reg::merge(w, CHCTL2_PHASES, enables(cfg))
            &&& after(0x04) == reg::merge(w, CTL1_IDLE, idles(cfg))
            &&& after(0x44) == protection(cfg)
            &&& after(0x34) == w
            &&& after(0x38) == w
            &&& after(0x3C) == w
            &&& after(0x40) == w
        }),
{
    broadcast use reg::group_after;

}

/// How the timer counts: direction and alignment, reload buffer, dead-time clock.
pub open spec fn counting_code(cfg: PwmConfig) -> int {
    (match cfg.align {
        PwmAlign::EdgeUp => 0x00int,
        PwmAlign::EdgeDown => 0x10,
        PwmAlign::Center1 => 0x20,
        PwmAlign::Center2 => 0x40,
        PwmAlign::Center3 => 0x60,
    }) + (if cfg.arse {
        0x80int
    } else {
        0
    }) + (match cfg.ckdiv {
        ClockDiv::Div1 => 0x000int,
        ClockDiv::Div2 => 0x100,
        ClockDiv::Div4 => 0x200,
    })
}

/// Both outputs of a pair on, and its complement inverted where the polarity is set.
pub open spec fn pair_code(c: PwmChannelConfig) -> int {
    if c.polarity {
        0xD
    } else {
        0x5
    }
}

/// The idle level of an output and of its complement.
pub open spec fn idle_code(c: PwmChannelConfig) -> int {
    (if c.idle_high {
        1int
    } else {
        0
    }) + (if c.idle_high_n {
        2int
    } else {
        0
    })
}

/// The dead time, driven off-states, and the break input.
pub open spec fn protection_code(cfg: PwmConfig) -> int {
    cfg.dead_time + 0xC00 + (if cfg.brk.enabled {
        0x1000int
    } else {
        0
    }) + (if cfg.brk.level {
        0x2000int
    } else {
        0
    })
}

proof fn counting(cfg: PwmConfig)
    ensures
        timebase(cfg) == counting_code(cfg),
        timebase(cfg) & 0x3F0 == timebase(cfg),
{
    bits::timer_fields(
        cfg.align.field(),
        flag(cfg.arse, CTL0_ARSE),
        cfg.ckdiv.field(),
        (0, 0, 0),
        (0, 0, 0),
        (0, 0, 0),
    );
}

proof fn enabling(cfg: PwmConfig)
    ensures
        enables(cfg) == pair_code(cfg.channels[0]) + 0x10 * pair_code(cfg.channels[1]) + 0x100
            * pair_code(cfg.channels[2]),
        enables(cfg) & 0xFFF == enables(cfg),
{
    let (p, q, r) = (
        flag(cfg.channels[0].polarity, 8),
        flag(cfg.channels[1].polarity, 8),
        flag(cfg.channels[2].polarity, 8),
    );
    bits::timer_fields(0, 0, 0, (p, q, r), (0, 0, 0), (0, 0, 0));
}

proof fn idling(cfg: PwmConfig)
    ensures
        idles(cfg) == 0x100 * idle_code(cfg.channels[0]) + 0x400 * idle_code(cfg.channels[1])
            + 0x1000 * idle_code(cfg.channels[2]),
        idles(cfg) & 0x3F00 == idles(cfg),
{
    let c = cfg.channels;
    bits::timer_fields(
        0,
        0,
        0,
        (0, 0, 0),
        (flag(c[0].idle_high, 1), flag(c[1].idle_high, 1), flag(c[2].idle_high, 1)),
        (flag(c[0].idle_high_n, 2), flag(c[1].idle_high_n, 2), flag(c[2].idle_high_n, 2)),
    );
}

proof fn protecting(cfg: PwmConfig)
    ensures
        protection(cfg) == protection_code(cfg),
{
    bits::no_main_output(
        cfg.dead_time as u32,
        flag(cfg.brk.enabled, CCHP_BRKEN),
        flag(cfg.brk.level, CCHP_BRKP),
    );
}

/// What bringing up the timer leaves in its registers: the counting, the prescaler, the reload and
/// repetition values as configured; three channels in PWM mode 0 with buffered compare values, each
/// pair with both outputs on and its complement inverted where its polarity is set; the idle levels
/// pair by pair; the dead time, driven off-states and the break input. Every bit that belongs to
/// something else stays.
pub proof fn law_timer_registers(base: u32, cfg: PwmConfig, w: u32)
    ensures
        ({
            let script = configure_script(base, cfg);
            let after = |offset: u32| reg::word_after(script, reg::at(base, offset), w);
            let c = cfg.channels;
            &&& after(0x00) & 0x3F0 == counting_code(cfg)
            &&& after(0x00) & !0x3F0u32 == w & !0x3F0u32
            &&& after(0x28) == cfg.prescaler
            &&& after(0x2C) == cfg.period
            &&& after(0x30) == cfg.crep
            &&& after(0x18) == 0x6868
            &&& after(0x1C) & 0xFF == 0x68
            &&& after(0x1C) & !0xFFu32 == w & !0xFFu32
            &&& after(0x20) & 0xFFF == pair_code(c[0]) + 0x10 * pair_code(c[1]) + 0x100 * pair_code(
                c[2],
            )
            &&& after(0x20) & !0xFFFu32 == w & !0xFFFu32
            &&& after(0x04) & 0x3F00 == 0x100 * idle_code(c[0]) + 0x400 * idle_code(c[1]) + 0x1000
                * idle_code(c[2])
            &&& after(0x04) & !0x3F00u32 == w & !0x3F00u32
            &&& after(0x44) == protection_code(cfg)
            &&& after(0x34) == w
            &&& after(0x38) == w
            &&& after(0x3C) == w
            &&& after(0x40) == w
        }),
{
    configured(base, cfg, w);
    bits::masks();
    counting(cfg);
    enabling(cfg);
    idling(cfg);
    protecting(cfg);
    bits::merge_fields(w, CTL0_TIMEBASE, timebase(cfg), 0);
    bits::merge_fields(w, CHCTL1_PHASE, CHCTL1_PHASE_SETTING, 0);
    bits::merge_fields(w, CHCTL2_PHASES, enables(cfg), 0);
    bits::merge_fields(w, CTL1_IDLE, idles(cfg), 0);
}

/// What configuring the trigger leaves in the registers: channel 3 compares in the mode asked for,
/// unbuffered, at the value asked for, enabled as asked for, and the trigger output has its source.
/// Every bit that belongs to something else stays.
pub proof fn law_trigger_registers(
    base: u32,
    compare: u16,
    oc_mode: OcMode,
    ch_enable: bool,
    trgo: TrgoSource,
    w: u32,
    x: u32,
)
    ensures
        ({
            let script = trigger_script(base, compare, oc_mode, ch_enable, trgo);
            let after = |offset: u32| reg::word_after(script, reg::at(base, offset), w);
            &&& after(0x1C) & 0x7B00 == (match oc_mode {
                OcMode::Pwm0 => 0x6000u32,
                OcMode::Pwm1 => 0x7000,
            })
            &&& after(0x1C) & !0x7B00u32 == w & !0x7B00u32
            &&& after(0x40) == compare
            &&& after(0x20) & 0x1000 == (if ch_enable {
                0x1000u32
            } else {
                0
            })
            &&& after(0x20) & !0x1000u32 == w & !0x1000u32
            &&& after(0x04) & 0x70 == (match trgo {
                TrgoSource::Reset => 0x00u32,
                TrgoSource::Enable => 0x10,
                TrgoSource::Update => 0x20,
                TrgoSource::Ch0Pulse => 0x30,
                TrgoSource::Ch0Compare => 0x40,
                TrgoSource::Ch1Compare => 0x50,
                TrgoSource::Ch2Compare => 0x60,
                TrgoSource::Ch3Compare => 0x70,
            })
            &&& after(0x04) & !0x70u32 == w & !0x70u32
            &&& x != reg::at(base, 0x1C) && x != reg::at(base, 0x40) && x != reg::at(base, 0x20)
                && x != reg::at(base, 0x04) ==> reg::word_after(script, x, w) == w
        }),
{
    broadcast use reg::group_after;

    bits::masks();
    bits::no_bits(trgo.field());
    bits::merge_fields(w, CHCTL1_TRIGGER, oc_mode.field() << 12, 0);
    bits::merge_fields(w, CHCTL2_CH3EN, flag(ch_enable, CHCTL2_CH3EN), 0);
    bits::merge_fields(w, CTL1_MMC, trgo.field() << 4, 0);
}

} // verus!
