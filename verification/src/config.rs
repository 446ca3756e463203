//! What an application chooses: pins, frames, clocks, sequences.
//!
//! Nothing here is read from the part; the drivers take these as they are given. A pin is one byte,
//! the port in its upper half (0 is A, 5 is F) and the number in its lower.

use vstd::prelude::*;

use crate::adc;
use crate::addr::PeriphLabel;
use crate::bits;
use crate::descriptor::{MAX_ADC_CHANNELS, MAX_INJECTED_CHANNELS, MAX_PWM_CHANNELS};

verus! {

/// The port and the number of a pin.
pub fn decode_pin(pin: u8) -> (r: (u8, u8))
    ensures
        r.0 == pin / 16,
        r.1 == pin % 16,
{
    proof {
        bits::nibbles(pin);
    }
    (pin >> 4, pin & 0x0F)
}

/// A pin byte decodes to the port and the number it was made of.
pub proof fn law_pins_decode(port: u8, number: u8)
    requires
        port < 16,
        number < 16,
    ensures
        (16 * port + number) / 16 == port,
        (16 * port + number) % 16 == number,
{
}

/// The word length of a USART frame.
#[derive(Debug, Clone, Copy, PartialEq, Eq, Structural)]
pub enum WordLen {
    Eight,
    Nine,
}

impl Default for WordLen {
    fn default() -> (r: Self)
        ensures
            r is Eight,
    {
        WordLen::Eight
    }
}

/// The parity of a USART frame.
#[derive(Debug, Clone, Copy, PartialEq, Eq, Structural)]
pub enum Parity {
    /// No parity bit.
    Off,
    Even,
    Odd,
}

impl Default for Parity {
    fn default() -> (r: Self)
        ensures
            r == Parity::Off,
    {
        Parity::Off
    }
}

/// The stop bits of a USART frame.
#[derive(Debug, Clone, Copy, PartialEq, Eq, Structural)]
pub enum StopBits {
    One,
    Half,
    Two,
    OneAndHalf,
}

impl Default for StopBits {
    fn default() -> (r: Self)
        ensures
            r is One,
    {
        StopBits::One
    }
}

/// How often a USART samples a bit.
#[derive(Debug, Clone, Copy, PartialEq, Eq, Structural)]
pub enum Oversampling {
    By16,
    By8,
}

impl Default for Oversampling {
    fn default() -> (r: Self)
        ensures
            r is By16,
    {
        Oversampling::By16
    }
}

/// A USART frame.
#[derive(Debug, Clone, Copy, PartialEq, Eq, Structural)]
pub struct UsartFrame {
    pub word_len: WordLen,
    pub parity: Parity,
    pub stop: StopBits,
}

impl UsartFrame {
    /// Eight data bits, no parity, one stop bit.
    pub fn eight_n_one() -> (r: UsartFrame)
        ensures
            r.word_len is Eight,
            r.parity == Parity::Off,
            r.stop is One,
    {
        UsartFrame { word_len: WordLen::Eight, parity: Parity::Off, stop: StopBits::One }
    }
}

impl Default for UsartFrame {
    fn default() -> (r: Self)
        ensures
            r.word_len is Eight,
            r.parity == Parity::Off,
            r.stop is One,
    {
        UsartFrame::eight_n_one()
    }
}

/// One USART.
#[derive(Debug, Clone, Copy, PartialEq, Eq, Structural)]
pub struct UsartConfig {
    pub usart: PeriphLabel,
    pub tx: u8,
    pub rx: u8,
    pub baud: u32,
    pub frame: UsartFrame,
    pub oversampling: Oversampling,
}

/// Who drives the select line of a SPI bus.
#[derive(Debug, Clone, Copy, PartialEq, Eq, Structural)]
pub enum NssMode {
    /// The application.
    Software,
    /// The SPI block.
    Hardware,
}

impl Default for NssMode {
    fn default() -> (r: Self)
        ensures
            r is Software,
    {
        NssMode::Software
    }
}

/// The level of an idle SPI clock.
#[derive(Debug, Clone, Copy, PartialEq, Eq, Structural)]
pub enum Polarity {
    IdleLow,
    IdleHigh,
}

/// The SPI clock edge at which data is taken.
#[derive(Debug, Clone, Copy, PartialEq, Eq, Structural)]
pub enum Phase {
    CaptureOnFirstTransition,
    CaptureOnSecondTransition,
}

/// The clock of a SPI bus.
#[derive(Debug, Clone, Copy, PartialEq, Eq, Structural)]
pub struct SpiMode {
    pub polarity: Polarity,
    pub phase: Phase,
}

/// The size of a SPI frame.
#[derive(Debug, Clone, Copy, PartialEq, Eq, Structural)]
pub enum DataSize {
    Eight,
    Sixteen,
}

/// One SPI bus.
#[derive(Debug, Clone, Copy, PartialEq, Eq, Structural)]
pub struct SpiConfig {
    pub spi: PeriphLabel,
    pub sck: u8,
    pub miso: u8,
    pub mosi: u8,
    pub nss: u8,
    /// Bit 1 is the polarity, bit 0 the phase.
    pub mode: u8,
    /// Frames of sixteen bits.
    pub data16: bool,
    pub target_hz: u32,
    pub lsb_first: bool,
    pub nss_mode: NssMode,
}

impl SpiConfig {
    /// The clock the mode number stands for.
    pub fn mode(&self) -> (r: SpiMode)
        ensures
            r.polarity == (if (self.mode / 2) % 2 == 1 {
                Polarity::IdleHigh
            } else {
                Polarity::IdleLow
            }),
            r.phase == (if self.mode % 2 == 1 {
                Phase::CaptureOnSecondTransition
            } else {
                Phase::CaptureOnFirstTransition
            }),
    {
        SpiMode {
            polarity: if (self.mode / 2) % 2 == 1 {
                Polarity::IdleHigh
            } else {
                Polarity::IdleLow
            },
            phase: if self.mode % 2 == 1 {
                Phase::CaptureOnSecondTransition
            } else {
                Phase::CaptureOnFirstTransition
            },
        }
    }

    /// The frame size.
    pub fn data_size(&self) -> (r: DataSize)
        ensures
            r == (if self.data16 {
                DataSize::Sixteen
            } else {
                DataSize::Eight
            }),
    {
        if self.data16 {
            DataSize::Sixteen
        } else {
            DataSize::Eight
        }
    }
}

/// The ADC clock as a fraction of the APB2 clock.
#[derive(Debug, Clone, Copy, PartialEq, Eq, Structural)]
pub enum AdcClockDiv {
    Div2,
    Div4,
    Div6,
    Div8,
}

impl AdcClockDiv {
    /// The field the fraction stands for: the divisor is twice one more than it.
    pub fn psc_code(self) -> (r: u32)
        ensures
            r == (match self {
                AdcClockDiv::Div2 => 0u32,
                AdcClockDiv::Div4 => 1,
                AdcClockDiv::Div6 => 2,
                AdcClockDiv::Div8 => 3,
            }),
    {
        match self {
            AdcClockDiv::Div2 => 0,
            AdcClockDiv::Div4 => 1,
            AdcClockDiv::Div6 => 2,
            AdcClockDiv::Div8 => 3,
        }
    }
}

impl Default for AdcClockDiv {
    fn default() -> (r: Self)
        ensures
            r is Div6,
    {
        AdcClockDiv::Div6
    }
}

/// One channel of a regular sequence.
#[derive(Debug, Clone, Copy, PartialEq, Eq, Structural)]
pub struct AdcChannel {
    pub channel: u8,
    pub sample_time: u8,
}

/// The fixed-capacity vector of the `heapless` crate.
#[verifier::external_type_specification]
#[verifier::external_body]
#[verifier::reject_recursive_types(T)]
pub struct ExFixedVec<T, const N: usize>(heapless::Vec<T, N>);

/// What a regular sequence holds, in order.
pub uninterp spec fn regular_items(v: heapless::Vec<AdcChannel, MAX_ADC_CHANNELS>) -> Seq<
    AdcChannel,
>;

/// What an injected sequence holds, in order.
pub uninterp spec fn injected_items(
    v: heapless::Vec<InjectedChannel, MAX_INJECTED_CHANNELS>,
) -> Seq<InjectedChannel>;

/// `heapless::Vec::as_slice` on a regular sequence: a slice of all the vector holds, in order,
/// which is never more than its capacity.
#[verifier::external_body]
fn regular_slice(v: &heapless::Vec<AdcChannel, MAX_ADC_CHANNELS>) -> (r: &[AdcChannel])
    ensures
        r@ == regular_items(*v),
        r@.len() <= MAX_ADC_CHANNELS,
{
    v.as_slice()
}

/// `heapless::Vec::as_slice` on an injected sequence: a slice of all the vector holds, in order,
/// which is never more than its capacity.
#[verifier::external_body]
pub(crate) fn injected_slice(v: &heapless::Vec<InjectedChannel, MAX_INJECTED_CHANNELS>) -> (r:
    &[InjectedChannel])
    ensures
        r@ == injected_items(*v),
        r@.len() <= MAX_INJECTED_CHANNELS,
{
    v.as_slice()
}

/// `heapless::Vec::clone` on a regular sequence: a vector that holds the same, in order.
#[verifier::external_body]
fn regular_clone(v: &heapless::Vec<AdcChannel, MAX_ADC_CHANNELS>) -> (r: heapless::Vec<
    AdcChannel,
    MAX_ADC_CHANNELS,
>)
    ensures
        regular_items(r) == regular_items(*v),
{
    v.clone()
}

/// `heapless::Vec::clone` on an injected sequence: a vector that holds the same, in order.
#[verifier::external_body]
fn injected_clone(v: &heapless::Vec<InjectedChannel, MAX_INJECTED_CHANNELS>) -> (r: heapless::Vec<
    InjectedChannel,
    MAX_INJECTED_CHANNELS,
>)
    ensures
        injected_items(r) == injected_items(*v),
{
    v.clone()
}

/// One ADC.
#[derive(Debug, PartialEq, Eq)]
pub struct AdcConfig {
    pub adc: PeriphLabel,
    pub channels: heapless::Vec<AdcChannel, MAX_ADC_CHANNELS>,
    pub left_aligned: bool,
    pub clock_div: AdcClockDiv,
}

impl Clone for AdcConfig {
    fn clone(&self) -> (r: Self)
        ensures
            r.adc == self.adc,
            regular_items(r.channels) == regular_items(self.channels),
            r.left_aligned == self.left_aligned,
            r.clock_div == self.clock_div,
    {
        AdcConfig {
            adc: self.adc,
            channels: regular_clone(&self.channels),
            left_aligned: self.left_aligned,
            clock_div: self.clock_div,
        }
    }
}

/// Whether a sequence has an internal channel.
pub open spec fn has_internal(channels: Seq<AdcChannel>) -> bool {
    exists|i: int| 0 <= i < channels.len() && adc::internal((#[trigger] channels[i]).channel)
}

/// Whether a sequence has an internal channel.
pub fn any_internal(channels: &[AdcChannel]) -> (r: bool)
    ensures
        r == has_internal(channels@),
{
    let mut i: usize = 0;
    while i < channels.len()
        invariant
            i <= channels@.len(),
            forall|j: int| 0 <= j < i ==> !adc::internal((#[trigger] channels@[j]).channel),
        decreases channels@.len() - i,
    {
        if adc::is_internal_channel(channels[i].channel) {
            assert(adc::internal(channels@[i as int].channel));
            return true;
        }
        i = i + 1;
    }
    false
}

impl AdcConfig {
    /// Whether the internal channels have to be switched on.
    pub fn needs_internal_enable(&self) -> (r: bool)
        ensures
            r == has_internal(regular_items(self.channels)),
    {
        any_internal(regular_slice(&self.channels))
    }
}

/// How a PWM timer counts.
#[derive(Debug, Clone, Copy, PartialEq, Eq, Structural)]
pub enum PwmAlign {
    /// Up.
    EdgeUp,
    /// Down.
    EdgeDown,
    /// Up and down, compare flags while counting down.
    Center1,
    /// Up and down, compare flags while counting up.
    Center2,
    /// Up and down, compare flags both ways.
    Center3,
}

impl PwmAlign {
    /// The direction in bit 4, the center mode in bits 5 and 6.
    pub open spec fn field(self) -> u32 {
        match self {
            PwmAlign::EdgeUp => 0x00,
            PwmAlign::EdgeDown => 0x10,
            PwmAlign::Center1 => 0x20,
            PwmAlign::Center2 => 0x40,
            PwmAlign::Center3 => 0x60,
        }
    }

    /// The bits of the timer's CTL0.
    pub fn ctl0_bits(self) -> (r: u32)
        ensures
            r == self.field(),
    {
        match self {
            PwmAlign::EdgeUp => 0x00,
            PwmAlign::EdgeDown => 0x10,
            PwmAlign::Center1 => 0x20,
            PwmAlign::Center2 => 0x40,
            PwmAlign::Center3 => 0x60,
        }
    }
}

impl Default for PwmAlign {
    fn default() -> (r: Self)
        ensures
            r is Center2,
    {
        PwmAlign::Center2
    }
}

/// The compare mode of a channel.
#[derive(Debug, Clone, Copy, PartialEq, Eq, Structural)]
pub enum OcMode {
    /// Active while the counter is below the compare value.
    Pwm0,
    /// Active while it is not.
    Pwm1,
}

impl OcMode {
    /// The compare control field.
    pub open spec fn field(self) -> u32 {
        match self {
            OcMode::Pwm0 => 6,
            OcMode::Pwm1 => 7,
        }
    }

    /// The compare control field of a channel.
    pub fn comctl(self) -> (r: u32)
        ensures
            r == self.field(),
    {
        match self {
            OcMode::Pwm0 => 6,
            OcMode::Pwm1 => 7,
        }
    }
}

impl Default for OcMode {
    fn default() -> (r: Self)
        ensures
            r is Pwm0,
    {
        OcMode::Pwm0
    }
}

/// The dead-time clock as a fraction of the timer clock.
#[derive(Debug, Clone, Copy, PartialEq, Eq, Structural)]
pub enum ClockDiv {
    Div1,
    Div2,
    Div4,
}

impl ClockDiv {
    /// The clock division field.
    pub open spec fn field(self) -> u32 {
        match self {
            ClockDiv::Div1 => 0,
            ClockDiv::Div2 => 1,
            ClockDiv::Div4 => 2,
        }
    }

    /// The clock division field of the timer's CTL0.
    pub fn ckdiv_code(self) -> (r: u32)
        ensures
            r == self.field(),
    {
        match self {
            ClockDiv::Div1 => 0,
            ClockDiv::Div2 => 1,
            ClockDiv::Div4 => 2,
        }
    }
}

impl Default for ClockDiv {
    fn default() -> (r: Self)
        ensures
            r is Div2,
    {
        ClockDiv::Div2
    }
}

/// What a timer gives out as its trigger.
#[derive(Debug, Clone, Copy, PartialEq, Eq, Structural)]
pub enum TrgoSource {
    Reset,
    Enable,
    Update,
    Ch0Pulse,
    Ch0Compare,
    Ch1Compare,
    Ch2Compare,
    Ch3Compare,
}

impl TrgoSource {
    /// The master mode field.
    pub open spec fn field(self) -> u32 {
        match self {
            TrgoSource::Reset => 0,
            TrgoSource::Enable => 1,
            TrgoSource::Update => 2,
            TrgoSource::Ch0Pulse => 3,
            TrgoSource::Ch0Compare => 4,
            TrgoSource::Ch1Compare => 5,
            TrgoSource::Ch2Compare => 6,
            TrgoSource::Ch3Compare => 7,
        }
    }

    /// The master mode field of the timer's CTL1.
    pub fn mmc(self) -> (r: u32)
        ensures
            r == self.field(),
    {
        match self {
            TrgoSource::Reset => 0,
            TrgoSource::Enable => 1,
            TrgoSource::Update => 2,
            TrgoSource::Ch0Pulse => 3,
            TrgoSource::Ch0Compare => 4,
            TrgoSource::Ch1Compare => 5,
            TrgoSource::Ch2Compare => 6,
            TrgoSource::Ch3Compare => 7,
        }
    }
}

impl Default for TrgoSource {
    fn default() -> (r: Self)
        ensures
            r is Update,
    {
        TrgoSource::Update
    }
}

/// No two settings share a code.
pub proof fn law_codes_are_distinct(
    a: (PwmAlign, OcMode, ClockDiv, TrgoSource),
    b: (PwmAlign, OcMode, ClockDiv, TrgoSource),
)
    ensures
        a.0.field() == b.0.field() ==> a.0 == b.0,
        a.1.field() == b.1.field() ==> a.1 == b.1,
        a.2.field() == b.2.field() ==> a.2 == b.2,
        a.3.field() == b.3.field() ==> a.3 == b.3,
{
}

/// The break input of a PWM timer.
#[derive(Debug, Clone, Copy, PartialEq, Eq, Structural)]
pub struct BreakConfig {
    pub enabled: bool,
    /// The level that breaks: high if set.
    pub level: bool,
}

/// One half bridge: an output and its complement.
#[derive(Debug, Clone, Copy, PartialEq, Eq, Structural)]
pub struct PwmChannelConfig {
    pub high: u8,
    pub low: u8,
    /// Active low if set.
    pub polarity: bool,
    /// The output idles high.
    pub idle_high: bool,
    /// The complement idles high.
    pub idle_high_n: bool,
}

/// One PWM timer with three half bridges.
#[derive(Debug, Clone, Copy, PartialEq, Eq)]
pub struct PwmConfig {
    pub timer: PeriphLabel,
    pub channels: [PwmChannelConfig; MAX_PWM_CHANNELS],
    pub period: u16,
    pub prescaler: u16,
    pub dead_time: u8,
    pub brk: BreakConfig,
    pub trigger_compare: u16,
    pub align: PwmAlign,
    pub arse: bool,
    pub trigger_oc_mode: OcMode,
    pub trigger_ch_enable: bool,
    pub crep: u8,
    pub ckdiv: ClockDiv,
    pub trgo_src: TrgoSource,
}

/// One channel of an injected sequence.
#[derive(Debug, Clone, Copy, PartialEq, Eq, Structural)]
pub struct InjectedChannel {
    pub channel: u8,
    pub sample_time: u8,
}

/// The timer event that starts an injected sequence.
#[derive(Debug, Clone, Copy, PartialEq, Eq, Structural)]
pub enum TimerTriggerLink {
    /// The compare of channel 3.
    Ch3,
    /// The trigger output.
    Trgo,
}

/// One ADC with an injected sequence.
#[derive(Debug, PartialEq, Eq)]
pub struct InjectedAdcConfig {
    pub adc: PeriphLabel,
    pub channels: heapless::Vec<InjectedChannel, MAX_INJECTED_CHANNELS>,
    pub left_aligned: bool,
    pub trigger_timer: PeriphLabel,
    pub trigger_link: TimerTriggerLink,
    pub clock_div: AdcClockDiv,
}

impl Clone for InjectedAdcConfig {
    fn clone(&self) -> (r: Self)
        ensures
            r.adc == self.adc,
            injected_items(r.channels) == injected_items(self.channels),
            r.left_aligned == self.left_aligned,
            r.trigger_timer == self.trigger_timer,
            r.trigger_link == self.trigger_link,
            r.clock_div == self.clock_div,
    {
        InjectedAdcConfig {
            adc: self.adc,
            channels: injected_clone(&self.channels),
            left_aligned: self.left_aligned,
            trigger_timer: self.trigger_timer,
            trigger_link: self.trigger_link,
            clock_div: self.clock_div,
        }
    }
}

} // verus!
