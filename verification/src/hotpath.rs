//! The motor hot path: what is configured once, and what runs every cycle.
//!
//! Configuring resolves every register once into a handle; the handle's methods only load and
//! store. The handle of the bridge sets duties and cannot switch the bridge on: the main output is
//! behind [`arming::ArmGate`] alone.

use vstd::prelude::*;

use crate::adc::{self, Adc, ETSIC_T0_CH3, ETSIC_T0_TRGO};
use crate::addr::{self, ranges, PeriphLabel};
use crate::chip::Chip;
use crate::config::{self, InjectedAdcConfig, InjectedChannel, PwmConfig, TimerTriggerLink};
use crate::descriptor::{MAX_INJECTED_CHANNELS, MAX_PWM_CHANNELS};
use crate::error::{AdcError, DescriptorError, HotPathError, PwmError};
use crate::reg::{self, Access, Bus, Reg32, Step};
use crate::timer::{self, PwmTimer};

pub mod arming;
pub mod hall;

verus! {

pub const TIMER_CH0CV: u32 = 0x34;

pub const TIMER_CH1CV: u32 = 0x38;

pub const TIMER_CH2CV: u32 = 0x3C;

pub const TIMER_CH3CV: u32 = 0x40;

pub const TIMER_CAR: u32 = 0x2C;

/// The protection register, which holds the main output enable.
pub const TIMER_CCHP: u32 = 0x44;

/// The main output enable.
pub const CCHP_MOE: u32 = 0x0000_8000;

/// The result of injected rank 0.
pub const ADC_IDATA0: u32 = 0x3C;

/// The result of injected rank 1.
pub const ADC_IDATA1: u32 = 0x40;

/// The result of injected rank 2.
pub const ADC_IDATA2: u32 = 0x44;

/// The result of injected rank 3.
pub const ADC_IDATA3: u32 = 0x48;

/// A timer that drives a bridge.
pub trait ComplementaryPwm<B: Bus> {
    /// What runs every cycle.
    type Handle: Copy;

    /// What configuring comes to.
    spec fn configures(
        &self,
        b0: B,
        b1: B,
        chip: Chip,
        cfg: PwmConfig,
        r: Result<Self::Handle, HotPathError>,
    ) -> bool;

    /// Configure the timer, with the main output off.
    fn configure(&self, bus: &mut B, chip: &Chip, cfg: &PwmConfig) -> (r: Result<
        Self::Handle,
        HotPathError,
    >)
        ensures
            self.configures(*old(bus), *final(bus), *chip, *cfg, r),
    ;
}

/// A converter whose injected sequence a timer starts.
pub trait TriggeredAdc<B: Bus> {
    /// What runs every cycle.
    type Handle: Copy;

    /// What configuring comes to.
    spec fn configures(
        &self,
        b0: B,
        b1: B,
        chip: Chip,
        cfg: InjectedAdcConfig,
        r: Result<Self::Handle, HotPathError>,
    ) -> bool;

    /// Configure the injected sequence.
    fn configure(&self, bus: &mut B, chip: &Chip, cfg: &InjectedAdcConfig) -> (r: Result<
        Self::Handle,
        HotPathError,
    >)
        ensures
            self.configures(*old(bus), *final(bus), *chip, *cfg, r),
    ;
}

// --- the bridge -------------------------------------------------------------------------------

/// The advanced timer as a bridge.
#[derive(Debug, Clone, Copy, PartialEq, Eq)]
pub struct PwmController {}

impl Default for PwmController {
    fn default() -> (r: Self)
        ensures
            r == (PwmController {  }),
    {
        PwmController {  }
    }
}

impl PwmController {
    /// The controller.
    pub fn new() -> (r: Self)
        ensures
            r == (PwmController {  }),
    {
        PwmController {  }
    }

    /// The output switch of the timer at `base`.
    pub fn arm_gate(base: u32) -> (r: arming::ArmGate)
        ensures
            r.timer() == base,
    {
        arming::ArmGate::new(base)
    }
}

/// What configuring a bridge comes to: the timer is brought up and its handle returned, or its
/// base is missing and nothing is touched.
pub open spec fn bridged<B: Bus>(
    b0: B,
    b1: B,
    chip: Chip,
    cfg: PwmConfig,
    r: Result<PwmHandle, HotPathError>,
) -> bool {
    match addr::resolved(chip.desc().addrs@, cfg.timer) {
        Err(e) => r == Err::<PwmHandle, _>(HotPathError::Descriptor(e)) && b1 == b0,
        Ok(base) => {
            &&& r matches Ok(h)
            &&& h.timer() == base
            &&& h.top() == cfg.period
            &&& reg::ran(b0, b1, timer::configure_script(base, cfg))
        },
    }
}

impl<B: Bus> ComplementaryPwm<B> for PwmController {
    type Handle = PwmHandle;

    open spec fn configures(
        &self,
        b0: B,
        b1: B,
        chip: Chip,
        cfg: PwmConfig,
        r: Result<PwmHandle, HotPathError>,
    ) -> bool {
        bridged(b0, b1, chip, cfg, r)
    }

    fn configure(&self, bus: &mut B, chip: &Chip, cfg: &PwmConfig) -> (r: Result<
        PwmHandle,
        HotPathError,
    >) {
        match PwmTimer::configure(bus, chip, cfg) {
            Ok(timer) => Ok(PwmHandle::new(timer.base(), cfg.period)),
            Err(e) => Err(HotPathError::Descriptor(e)),
        }
    }
}

/// The compare registers of a bridge. There is no other register that a handle can reach.
#[derive(Debug, Clone, Copy, PartialEq, Eq)]
pub struct PwmHandle {
    ch_cv: [Reg32; MAX_PWM_CHANNELS],
    trig_cv: Reg32,
    period: u16,
}

impl PwmHandle {
    /// The base of the timer.
    pub closed spec fn timer(self) -> u32 {
        self.trig_cv.addr.wrapping_sub(TIMER_CH3CV)
    }

    /// What the timer counts to.
    pub closed spec fn top(self) -> u16 {
        self.period
    }

    /// The registers are the compare registers of one timer.
    #[verifier::type_invariant]
    spec fn wf(self) -> bool {
        &&& self.ch_cv@[0].addr == reg::at(self.timer(), TIMER_CH0CV)
        &&& self.ch_cv@[1].addr == reg::at(self.timer(), TIMER_CH1CV)
        &&& self.ch_cv@[2].addr == reg::at(self.timer(), TIMER_CH2CV)
        &&& self.trig_cv.addr == reg::at(self.timer(), TIMER_CH3CV)
    }

    /// The handle of the timer at `timer_base`, counting to `period`.
    pub fn new(timer_base: u32, period: u16) -> (r: Self)
        ensures
            r.timer() == timer_base,
            r.top() == period,
    {
        Self {
            ch_cv: [
                Reg32::new(timer_base, TIMER_CH0CV),
                Reg32::new(timer_base, TIMER_CH1CV),
                Reg32::new(timer_base, TIMER_CH2CV),
            ],
            trig_cv: Reg32::new(timer_base, TIMER_CH3CV),
            period,
        }
    }

    /// Setting the three duties.
    pub open spec fn duties_script(self, duties: Seq<u16>) -> Seq<Step> {
        Seq::empty().push(
            Step::Store { addr: reg::at(self.timer(), TIMER_CH0CV), value: duties[0] as u32 },
        ).push(
            Step::Store { addr: reg::at(self.timer(), TIMER_CH1CV), value: duties[1] as u32 },
        ).push(Step::Store { addr: reg::at(self.timer(), TIMER_CH2CV), value: duties[2] as u32 })
    }

    /// Setting the trigger.
    pub open spec fn rearm_step(self, compare: u16) -> Step {
        Step::Store { addr: reg::at(self.timer(), TIMER_CH3CV), value: compare as u32 }
    }

    /// Set the three duties. One above the period is refused, and then none is set.
    pub fn set_duties<B: Bus>(&self, bus: &mut B, duties: [u16; MAX_PWM_CHANNELS]) -> (r: Result<
        (),
        PwmError,
    >)
        ensures
            if duties@[0] <= self.top() && duties@[1] <= self.top() && duties@[2] <= self.top() {
                r is Ok && reg::ran(*old(bus), *final(bus), self.duties_script(duties@))
            } else {
                r == Err::<(), _>(PwmError::DutyOutOfRange) && *final(bus) == *old(bus)
            },
    {
        broadcast use reg::ran_then;

        if duties[0] > self.period || duties[1] > self.period || duties[2] > self.period {
            return Err(PwmError::DutyOutOfRange);
        }
        proof {
            use_type_invariant(self);
            reg::ran_nothing(*bus);
        }
        self.ch_cv[0].write(bus, duties[0] as u32);
        self.ch_cv[1].write(bus, duties[1] as u32);
        self.ch_cv[2].write(bus, duties[2] as u32);
        Ok(())
    }

    /// Set the trigger. A value above the period is refused.
    pub fn rearm_trigger<B: Bus>(&self, bus: &mut B, compare: u16) -> (r: Result<(), PwmError>)
        ensures
            if compare <= self.top() {
                r is Ok && reg::did(*old(bus), *final(bus), self.rearm_step(compare))
            } else {
                r == Err::<(), _>(PwmError::DutyOutOfRange) && *final(bus) == *old(bus)
            },
    {
        if compare > self.period {
            return Err(PwmError::DutyOutOfRange);
        }
        proof {
            use_type_invariant(self);
        }
        self.trig_cv.write(bus, compare as u32);
        Ok(())
    }

    /// The period.
    pub fn period(&self) -> (r: u16)
        ensures
            r == self.top(),
    {
        self.period
    }
}

// --- the converter ----------------------------------------------------------------------------

/// A converter with an injected sequence.
#[derive(Debug, Clone, Copy, PartialEq, Eq)]
pub struct InjectedAdcController {}

impl Default for InjectedAdcController {
    fn default() -> (r: Self)
        ensures
            r == (InjectedAdcController {  }),
    {
        InjectedAdcController {  }
    }
}

impl InjectedAdcController {
    /// The controller.
    pub fn new() -> (r: Self)
        ensures
            r == (InjectedAdcController {  }),
    {
        InjectedAdcController {  }
    }
}

/// The trigger source code of a link; only timer 0 can be the trigger.
pub open spec fn trigger_code(timer: PeriphLabel, link: TimerTriggerLink) -> Option<u32> {
    if timer is Timer0 {
        Some(
            match link {
                TimerTriggerLink::Ch3 => ETSIC_T0_CH3,
                TimerTriggerLink::Trgo => ETSIC_T0_TRGO,
            },
        )
    } else {
        None
    }
}

/// The trigger source code of a configuration.
pub fn etsic_for_link(cfg: &InjectedAdcConfig) -> (r: Option<u32>)
    ensures
        r == trigger_code(cfg.trigger_timer, cfg.trigger_link),
{
    match cfg.trigger_timer {
        PeriphLabel::Timer0 => match cfg.trigger_link {
            TimerTriggerLink::Ch3 => Some(ETSIC_T0_CH3),
            TimerTriggerLink::Trgo => Some(ETSIC_T0_TRGO),
        },
        _ => None,
    }
}

/// The verdict on a configuration with the given channels, before anything is touched: the base of
/// the converter must be there and in its window, there must be one to four channels, and the
/// trigger must be timer 0. What comes of it is the base and the trigger code.
pub open spec fn injected_plan(chip: Chip, cfg: InjectedAdcConfig, n: nat) -> Result<
    (u32, u32),
    HotPathError,
> {
    if !(cfg.adc is Adc0 || cfg.adc is Adc1) {
        Err(HotPathError::Descriptor(DescriptorError::UnknownSelector))
    } else {
        match addr::placed(chip.desc().addrs@, cfg.adc, ranges::ADC_APB2) {
            Err(e) => Err(HotPathError::Descriptor(e)),
            Ok(_) => if n == 0 || n > MAX_INJECTED_CHANNELS {
                Err(HotPathError::Adc(AdcError::Other))
            } else {
                match trigger_code(cfg.trigger_timer, cfg.trigger_link) {
                    None => Err(HotPathError::Adc(AdcError::Other)),
                    Some(code) => Ok((chip.desc().addrs@[cfg.adc], code)),
                }
            },
        }
    }
}

/// Channels as pairs of number and sample time.
pub open spec fn pairs(channels: Seq<InjectedChannel>) -> Seq<(u8, u8)> {
    Seq::new(channels.len(), |i: int| (channels[i].channel, channels[i].sample_time))
}

/// What configuring an injected sequence of the given channels comes to.
pub open spec fn sequenced<B: Bus>(
    b0: B,
    b1: B,
    chip: Chip,
    cfg: InjectedAdcConfig,
    channels: Seq<InjectedChannel>,
    r: Result<InjectedHandle, HotPathError>,
) -> bool {
    match injected_plan(chip, cfg, channels.len()) {
        Err(e) => r == Err::<InjectedHandle, _>(e) && b1 == b0,
        Ok((base, code)) => started(b0, b1, base, code, cfg, channels, r),
    }
}

/// What bringing up the converter at `base` for an injected sequence comes to.
pub open spec fn started<B: Bus>(
    b0: B,
    b1: B,
    base: u32,
    code: u32,
    cfg: InjectedAdcConfig,
    channels: Seq<InjectedChannel>,
    r: Result<InjectedHandle, HotPathError>,
) -> bool {
    exists|up: Result<Adc, AdcError>|
        {
            &&& #[trigger] adc::injected_brought_up(
                b0,
                b1,
                base,
                pairs(channels),
                cfg.left_aligned,
                code,
                up,
            )
            &&& match up {
                Ok(_) => r matches Ok(h) && h.converter() == base && h.length() == channels.len(),
                Err(e) => r == Err::<InjectedHandle, _>(HotPathError::Adc(e)),
            }
        }
}

/// Configure an injected sequence of the given channels, as `cfg` says otherwise.
pub fn configure_sequence<B: Bus>(
    bus: &mut B,
    chip: &Chip,
    cfg: &InjectedAdcConfig,
    channels: &[InjectedChannel],
) -> (r: Result<InjectedHandle, HotPathError>)
    ensures
        sequenced(*old(bus), *final(bus), *chip, *cfg, channels@, r),
{
    if let Err(e) = chip.descriptor().addrs.check_adc_base(cfg.adc) {
        return Err(HotPathError::Descriptor(e));
    }
    let base: u32 = match chip.base(cfg.adc) {
        Ok(base) => base,
        Err(e) => {
            return Err(HotPathError::Descriptor(e));
        },
    };
    let len: usize = channels.len();
    if len == 0 || len > MAX_INJECTED_CHANNELS {
        return Err(HotPathError::Adc(AdcError::Other));
    }
    let code: u32 = match etsic_for_link(cfg) {
        Some(code) => code,
        None => {
            return Err(HotPathError::Adc(AdcError::Other));
        },
    };
    let mut list: Vec<(u8, u8)> = Vec::new();
    let mut i: usize = 0;
    while i < len
        invariant
            len == channels@.len(),
            i <= len,
            list@.len() == i,
            forall|j: int|
                0 <= j < i ==> #[trigger] list@[j] == (
                    channels@[j].channel,
                    channels@[j].sample_time,
                ),
        decreases len - i,
    {
        list.push((channels[i].channel, channels[i].sample_time));
        i = i + 1;
    }
    assert(list@ =~= pairs(channels@));
    let ghost b0 = *bus;
    let up: Result<Adc, AdcError> = Adc::bring_up_injected(
        bus,
        base,
        list.as_slice(),
        cfg.left_aligned,
        code,
    );
    assert(adc::injected_brought_up(
        b0,
        *bus,
        base,
        pairs(channels@),
        cfg.left_aligned,
        code,
        up,
    ));
    let r: Result<InjectedHandle, HotPathError> = match up {
        Ok(dev) => Ok(InjectedHandle::new(dev.base(), len as u8)),
        Err(e) => Err(HotPathError::Adc(e)),
    };
    assert(started(b0, *bus, base, code, *cfg, channels@, r));
    r
}

impl<B: Bus> TriggeredAdc<B> for InjectedAdcController {
    type Handle = InjectedHandle;

    open spec fn configures(
        &self,
        b0: B,
        b1: B,
        chip: Chip,
        cfg: InjectedAdcConfig,
        r: Result<InjectedHandle, HotPathError>,
    ) -> bool {
        sequenced(b0, b1, chip, cfg, config::injected_items(cfg.channels), r)
    }

    fn configure(&self, bus: &mut B, chip: &Chip, cfg: &InjectedAdcConfig) -> (r: Result<
        InjectedHandle,
        HotPathError,
    >) {
        configure_sequence(bus, chip, cfg, config::injected_slice(&cfg.channels))
    }
}

/// The result registers of an injected sequence.
#[derive(Debug, Clone, Copy, PartialEq, Eq)]
pub struct InjectedHandle {
    idata: [Reg32; MAX_INJECTED_CHANNELS],
    len: u8,
}

impl InjectedHandle {
    /// The base of the converter.
    pub closed spec fn converter(self) -> u32 {
        self.idata@[0].addr.wrapping_sub(ADC_IDATA0)
    }

    /// The length of the sequence.
    pub closed spec fn length(self) -> u8 {
        self.len
    }

    /// The registers are the result registers of one converter, in order.
    #[verifier::type_invariant]
    spec fn wf(self) -> bool {
        &&& self.idata@[0].addr == reg::at(self.converter(), ADC_IDATA0)
        &&& self.idata@[1].addr == reg::at(self.converter(), ADC_IDATA1)
        &&& self.idata@[2].addr == reg::at(self.converter(), ADC_IDATA2)
        &&& self.idata@[3].addr == reg::at(self.converter(), ADC_IDATA3)
    }

    /// The handle of the converter at `adc_base`, with `len` channels.
    pub fn new(adc_base: u32, len: u8) -> (r: Self)
        ensures
            r.converter() == adc_base,
            r.length() == len,
    {
        Self {
            idata: [
                Reg32::new(adc_base, ADC_IDATA0),
                Reg32::new(adc_base, ADC_IDATA1),
                Reg32::new(adc_base, ADC_IDATA2),
                Reg32::new(adc_base, ADC_IDATA3),
            ],
            len,
        }
    }

    /// Reading the four result registers, which return `v`.
    pub open spec fn results_script(self, v: Seq<u32>) -> Seq<Step> {
        Seq::empty().push(
            Step::Load { addr: reg::at(self.converter(), ADC_IDATA0), value: v[0] },
        ).push(Step::Load { addr: reg::at(self.converter(), ADC_IDATA1), value: v[1] }).push(
            Step::Load { addr: reg::at(self.converter(), ADC_IDATA2), value: v[2] },
        ).push(Step::Load { addr: reg::at(self.converter(), ADC_IDATA3), value: v[3] })
    }

    /// The four results in order, each the lower half of what its register returns, whatever the
    /// length of the sequence.
    pub fn read_injected<B: Bus>(&self, bus: &mut B) -> (r: [u16; MAX_INJECTED_CHANNELS])
        ensures
            exists|v: Seq<u32>|
                {
                    &&& reg::ran(*old(bus), *final(bus), #[trigger] self.results_script(v))
                    &&& r@[0] == v[0] & 0xFFFF
                    &&& r@[1] == v[1] & 0xFFFF
                    &&& r@[2] == v[2] & 0xFFFF
                    &&& r@[3] == v[3] & 0xFFFF
                },
    {
        broadcast use reg::ran_then;

        proof {
            use_type_invariant(self);
            reg::ran_nothing(*bus);
        }
        let v0: u32 = self.idata[0].read(bus);
        let v1: u32 = self.idata[1].read(bus);
        let v2: u32 = self.idata[2].read(bus);
        let v3: u32 = self.idata[3].read(bus);
        proof {
            let v = Seq::<u32>::empty().push(v0).push(v1).push(v2).push(v3);
            assert(reg::ran(*old(bus), *bus, self.results_script(v)));
        }
        [adc::low_half(v0), adc::low_half(v1), adc::low_half(v2), adc::low_half(v3)]
    }

    /// The length of the sequence.
    pub fn len(&self) -> (r: u8)
        ensures
            r == self.length(),
    {
        self.len
    }

    /// Whether the sequence is empty.
    pub fn is_empty(&self) -> (r: bool)
        ensures
            r == (self.length() == 0),
    {
        self.len == 0
    }
}

// --- laws -------------------------------------------------------------------------------------

/// What runs every cycle never touches the protection register, whatever the handle: setting
/// duties and the trigger leaves the main output of its timer as it is, on or off.
pub proof fn law_cycle_never_touches_the_output(
    h: PwmHandle,
    duties: Seq<u16>,
    compare: u16,
    w: u32,
)
    ensures
        reg::word_after(h.duties_script(duties), reg::at(h.timer(), 0x44), w) == w,
        reg::word_step(h.rearm_step(compare), reg::at(h.timer(), 0x44), w) == w,
{
    broadcast use reg::group_after;

}

/// Setting duties sets the three compare values and leaves the trigger; setting the trigger sets
/// its compare value and leaves the duties.
pub proof fn law_duties_and_trigger_are_apart(
    h: PwmHandle,
    duties: Seq<u16>,
    compare: u16,
    w: u32,
)
    ensures
        reg::word_after(h.duties_script(duties), reg::at(h.timer(), 0x34), w) == duties[0],
        reg::word_after(h.duties_script(duties), reg::at(h.timer(), 0x38), w) == duties[1],
        reg::word_after(h.duties_script(duties), reg::at(h.timer(), 0x3C), w) == duties[2],
        reg::word_after(h.duties_script(duties), reg::at(h.timer(), 0x40), w) == w,
        reg::word_step(h.rearm_step(compare), reg::at(h.timer(), 0x40), w) == compare,
        reg::word_step(h.rearm_step(compare), reg::at(h.timer(), 0x34), w) == w,
        reg::word_step(h.rearm_step(compare), reg::at(h.timer(), 0x38), w) == w,
        reg::word_step(h.rearm_step(compare), reg::at(h.timer(), 0x3C), w) == w,
{
    broadcast use reg::group_after;

}

/// The trigger that runs every cycle is the one that the timer's own trigger configuration sets.
pub proof fn law_rearm_meets_the_configured_trigger(h: PwmHandle, compare: u16)
    ensures
        h.rearm_step(compare) == (Step::Store {
            addr: reg::at(h.timer(), 0x40),
            value: compare as u32,
        }),
{
}

/// A bridge is configured with its main output off.
pub proof fn law_configured_bridge_is_off<B: Bus>(
    b0: B,
    b1: B,
    chip: Chip,
    cfg: PwmConfig,
    h: PwmHandle,
)
    requires
        b0.flat(),
        bridged(b0, b1, chip, cfg, Ok(h)),
    ensures
        reg::recall(b1.log(), reg::at(chip.desc().addrs@[cfg.timer], 0x44)) & 0x8000 == 0,
{
    let base = chip.desc().addrs@[cfg.timer];
    let cchp = reg::at(base, 0x44);
    reg::ran_leaves(b0, b1, timer::configure_script(base, cfg), cchp);
    timer::law_configure_leaves_the_output_off(base, cfg, reg::recall(b0.log(), cchp));
}

/// The results are loaded once each, rank by rank, from four registers in a row.
pub proof fn law_results_in_order<B: Bus>(b0: B, b1: B, h: InjectedHandle, v: Seq<u32>, i: int)
    requires
        reg::ran(b0, b1, h.results_script(v)),
        0 <= i < 4,
    ensures
        b1.log().len() == b0.log().len() + 4,
        b1.log()[b0.log().len() + i] == (Access::Load {
            addr: reg::at(h.converter(), (0x3C + 4 * i) as u32),
            value: v[i],
        }),
{
    let a = |i: int| Step::Load { addr: reg::at(h.converter(), (0x3C + 4 * i) as u32), value: v[i] };
    let none = Seq::<Step>::empty();
    let m3 = reg::last_step(b0.log(), b1.log(), none.push(a(0)).push(a(1)).push(a(2)), a(3));
    let m2 = reg::last_step(b0.log(), m3, none.push(a(0)).push(a(1)), a(2));
    let m1 = reg::last_step(b0.log(), m2, none.push(a(0)), a(1));
    let m0 = reg::last_step(b0.log(), m1, none, a(0));
    assert(m0 == b0.log());
}

/// A sequence is started by timer 0 alone: by the compare of its channel 3 or by its trigger
/// output.
pub proof fn law_trigger_codes(timer: PeriphLabel, link: TimerTriggerLink)
    ensures
        trigger_code(timer, link) is Some <==> timer == PeriphLabel::Timer0,
        timer is Timer0 && link is Trgo ==> trigger_code(timer, link) == Some(0u32),
        timer is Timer0 && link is Ch3 ==> trigger_code(timer, link) == Some(1u32),
{
}

/// Bringing up a bridge runs on the timer that the configuration names, with that configuration, and
/// the handle is that timer's and counts to the configured period; where the timer has no base,
/// nothing is touched and the label is told.
pub proof fn law_bridge<B: Bus>(
    b0: B,
    b1: B,
    chip: Chip,
    cfg: PwmConfig,
    r: Result<PwmHandle, HotPathError>,
)
    requires
        bridged(b0, b1, chip, cfg, r),
    ensures
        match addr::lookup(chip.desc().addrs@, cfg.timer) {
            None => b1 == b0 && r == Err::<PwmHandle, _>(
                HotPathError::Descriptor(DescriptorError::MissingBase(cfg.timer)),
            ),
            Some(base) => {
                &&& reg::ran(b0, b1, timer::configure_script(base, cfg))
                &&& r matches Ok(h) && h.timer() == base && h.top() == cfg.period
            },
        },
{
}

/// The list handed to the converter has every channel with its sample time, in order.
pub proof fn law_pairs(channels: Seq<InjectedChannel>, i: int)
    requires
        0 <= i < channels.len(),
    ensures
        pairs(channels).len() == channels.len(),
        pairs(channels)[i].0 == channels[i].channel,
        pairs(channels)[i].1 == channels[i].sample_time,
{
}

/// A sequence is refused, with nothing touched, for a label that is no converter of a pair, for a
/// base that is missing or outside 0x40012400 to 0x40012BFF, for no channels or more than four, and
/// for a trigger that is not timer 0; the first of these is told.
pub proof fn law_injected_plan(chip: Chip, cfg: InjectedAdcConfig, n: nat)
    ensures
        ({
            let plan = injected_plan(chip, cfg, n);
            let base = addr::lookup(chip.desc().addrs@, cfg.adc);
            let converter = cfg.adc == PeriphLabel::Adc0 || cfg.adc == PeriphLabel::Adc1;
            let inside = base matches Some(b) && 0x4001_2400 <= b < 0x4001_2C00;
            &&& !converter ==> plan == Err::<(u32, u32), _>(
                HotPathError::Descriptor(DescriptorError::UnknownSelector),
            )
            &&& converter && base is None ==> plan == Err::<(u32, u32), _>(
                HotPathError::Descriptor(DescriptorError::MissingBase(cfg.adc)),
            )
            &&& converter && base is Some && !inside ==> plan == Err::<(u32, u32), _>(
                HotPathError::Descriptor(DescriptorError::SelectorAddrMismatch),
            )
            &&& converter && inside && (n == 0 || n > 4 || cfg.trigger_timer
                != PeriphLabel::Timer0) ==> plan == Err::<(u32, u32), _>(
                HotPathError::Adc(AdcError::Other),
            )
            &&& converter && inside && 1 <= n <= 4 && cfg.trigger_timer == PeriphLabel::Timer0
                ==> plan == Ok::<_, HotPathError>(
                (
                    base->0,
                    if cfg.trigger_link is Ch3 {
                        1u32
                    } else {
                        0
                    },
                ),
            )
        }),
{
}

/// A sequence that is not refused is configured on its converter with its channels, its alignment and
/// its trigger, before anything else; the handle is that converter's and as long as the sequence.
pub proof fn law_sequence<B: Bus>(
    b0: B,
    b1: B,
    chip: Chip,
    cfg: InjectedAdcConfig,
    channels: Seq<InjectedChannel>,
    r: Result<InjectedHandle, HotPathError>,
)
    requires
        sequenced(b0, b1, chip, cfg, channels, r),
    ensures
        match injected_plan(chip, cfg, channels.len()) {
            Err(e) => b1 == b0 && r == Err::<InjectedHandle, _>(e),
            Ok((base, code)) => {
                &&& exists|m: B, c: Result<(), AdcError>|
                    {
                        &&& reg::ran(
                            b0,
                            m,
                            adc::injected_script(base, pairs(channels), cfg.left_aligned, code),
                        )
                        &&& #[trigger] adc::calibrated(m, b1, base, c)
                        &&& r is Ok <==> c is Ok
                    }
                &&& r matches Ok(h) ==> h.converter() == base && h.length() == channels.len()
                &&& r matches Err(e) ==> e == HotPathError::Adc(AdcError::Timeout)
            },
        },
{
    if let Ok((base, code)) = injected_plan(chip, cfg, channels.len()) {
        let up = choose|up: Result<Adc, AdcError>|
            {
                &&& #[trigger] adc::injected_brought_up(
                    b0,
                    b1,
                    base,
                    pairs(channels),
                    cfg.left_aligned,
                    code,
                    up,
                )
                &&& match up {
                    Ok(_) => r matches Ok(h) && h.converter() == base && h.length()
                        == channels.len(),
                    Err(e) => r == Err::<InjectedHandle, _>(HotPathError::Adc(e)),
                }
            };
    }
}

/// The registers of the hot path are those of the timer and of the converter.
pub proof fn law_same_registers(n: u8)
    requires
        n < 4,
    ensures
        TIMER_CAR == timer::CAR,
        TIMER_CCHP == timer::CCHP,
        CCHP_MOE == timer::CCHP_MOE,
        adc::injected_data(n) == ADC_IDATA0 + 4 * n,
{
}

} // verus!
