//! The errors of the library.

use vstd::prelude::*;

use crate::addr::PeriphLabel;

verus! {

/// A chip description that does not fit together.
#[non_exhaustive]
#[derive(Debug, Clone, Copy, PartialEq, Eq, Structural)]
pub enum DescriptorError {
    /// A base lies outside the window its register model expects, or the part has no such
    /// peripheral.
    SelectorAddrMismatch,
    /// A label of the wrong class was named.
    UnknownSelector,
    /// The table carries no base for this label.
    MissingBase(PeriphLabel),
    /// The USART configuration cannot be met.
    UsartConfig,
}

/// Detection failed.
#[non_exhaustive]
#[derive(Debug, Clone, Copy, PartialEq, Eq, Structural)]
pub enum DetectError {
    /// Neither family answered the probe.
    NoFamily,
}

/// A USART transfer failed.
#[non_exhaustive]
#[derive(Debug, Clone, Copy, PartialEq, Eq, Structural)]
pub enum UsartError {
    /// A byte arrived before the last was read.
    Overrun,
    /// A stop bit was missing.
    Framing,
    /// The parity bit was wrong.
    Parity,
    /// Anything else.
    Other,
}

/// The portable class of a [`UsartError`].
#[derive(Debug, Clone, Copy, PartialEq, Eq, Structural)]
pub enum UsartErrorKind {
    /// No more specific class applies.
    Other,
}

impl UsartError {
    /// The portable class: a serial line error has none more specific than `Other`.
    pub fn kind(&self) -> (r: UsartErrorKind)
        ensures
            r == UsartErrorKind::Other,
    {
        UsartErrorKind::Other
    }
}

/// An I2C transfer failed.
#[non_exhaustive]
#[derive(Debug, Clone, Copy, PartialEq, Eq, Structural)]
pub enum I2cError {
    /// A misplaced START or STOP, or a bus that stays busy.
    Bus,
    /// Another master won the bus.
    ArbitrationLoss,
    /// Nobody acknowledged the address.
    NoAcknowledgeAddress,
    /// A data byte was not acknowledged.
    NoAcknowledgeData,
    /// Data was lost.
    Overrun,
    /// A wait ran out of budget.
    Timeout,
    /// Anything else.
    Other,
}

/// What was not acknowledged.
#[derive(Debug, Clone, Copy, PartialEq, Eq, Structural)]
pub enum NoAcknowledgeSource {
    /// The address byte.
    Address,
    /// A data byte.
    Data,
}

/// The portable class of an [`I2cError`].
#[derive(Debug, Clone, Copy, PartialEq, Eq, Structural)]
pub enum I2cErrorKind {
    /// A bus error.
    Bus,
    /// Lost arbitration.
    ArbitrationLoss,
    /// A missing acknowledge.
    NoAcknowledge(NoAcknowledgeSource),
    /// Lost data.
    Overrun,
    /// No more specific class applies.
    Other,
}

impl I2cError {
    /// The portable class.
    pub open spec fn class(self) -> I2cErrorKind {
        match self {
            I2cError::Bus => I2cErrorKind::Bus,
            I2cError::ArbitrationLoss => I2cErrorKind::ArbitrationLoss,
            I2cError::NoAcknowledgeAddress => I2cErrorKind::NoAcknowledge(
                NoAcknowledgeSource::Address,
            ),
            I2cError::NoAcknowledgeData => I2cErrorKind::NoAcknowledge(NoAcknowledgeSource::Data),
            I2cError::Overrun => I2cErrorKind::Overrun,
            I2cError::Timeout => I2cErrorKind::Other,
            I2cError::Other => I2cErrorKind::Other,
        }
    }

    /// The portable class.
    pub fn kind(&self) -> (r: I2cErrorKind)
        ensures
            r == self.class(),
    {
        match self {
            I2cError::Bus => I2cErrorKind::Bus,
            I2cError::ArbitrationLoss => I2cErrorKind::ArbitrationLoss,
            I2cError::NoAcknowledgeAddress => I2cErrorKind::NoAcknowledge(
                NoAcknowledgeSource::Address,
            ),
            I2cError::NoAcknowledgeData => I2cErrorKind::NoAcknowledge(NoAcknowledgeSource::Data),
            I2cError::Overrun => I2cErrorKind::Overrun,
            I2cError::Timeout | I2cError::Other => I2cErrorKind::Other,
        }
    }
}

/// A SPI transfer failed.
#[non_exhaustive]
#[derive(Debug, Clone, Copy, PartialEq, Eq, Structural)]
pub enum SpiError {
    /// Another master pulled NSS low.
    ModeFault,
    /// Data was lost.
    Overrun,
    /// The checksum was wrong.
    Crc,
    /// Anything else.
    Other,
}

/// The portable class of a [`SpiError`].
#[derive(Debug, Clone, Copy, PartialEq, Eq, Structural)]
pub enum SpiErrorKind {
    /// A mode fault.
    ModeFault,
    /// Lost data.
    Overrun,
    /// No more specific class applies.
    Other,
}

impl SpiError {
    /// The portable class.
    pub open spec fn class(self) -> SpiErrorKind {
        match self {
            SpiError::ModeFault => SpiErrorKind::ModeFault,
            SpiError::Overrun => SpiErrorKind::Overrun,
            SpiError::Crc => SpiErrorKind::Other,
            SpiError::Other => SpiErrorKind::Other,
        }
    }

    /// The portable class.
    pub fn kind(&self) -> (r: SpiErrorKind)
        ensures
            r == self.class(),
    {
        match self {
            SpiError::ModeFault => SpiErrorKind::ModeFault,
            SpiError::Overrun => SpiErrorKind::Overrun,
            SpiError::Crc | SpiError::Other => SpiErrorKind::Other,
        }
    }
}

/// An ADC operation failed.
#[non_exhaustive]
#[derive(Debug, Clone, Copy, PartialEq, Eq, Structural)]
pub enum AdcError {
    /// A wait ran out of budget.
    Timeout,
    /// The configuration cannot be met.
    Other,
}

/// A flash operation failed.
#[non_exhaustive]
#[derive(Debug, Clone, Copy, PartialEq, Eq, Structural)]
pub enum FmcError {
    /// A misaligned or out-of-flash address or length; nothing was touched.
    BadArg,
    /// The target of a program is not erased; nothing was touched.
    NotErased,
    /// The page is write-protected.
    WriteProtect,
    /// The controller refused to program a cell.
    ProgramError,
    /// The controller stayed busy.
    Timeout,
}

/// The clock tree was not brought up.
#[non_exhaustive]
#[derive(Debug, Clone, Copy, PartialEq, Eq, Structural)]
pub enum ClockError {
    /// The oscillator never reported stable.
    SourceNotStable,
    /// The PLL never reported lock.
    PllNotLocked,
    /// The switch to the PLL was never confirmed.
    SwitchNotConfirmed,
    /// The PLL multiplier is out of range.
    InvalidPll,
    /// A prescaler is not one the part has.
    InvalidPrescaler,
    /// The wait states do not fit the system clock, or the clock is beyond the part.
    InvalidWaitStates,
    /// The chip carries no RCU base.
    MissingRcuBase,
}

impl From<DescriptorError> for ClockError {
    fn from(_e: DescriptorError) -> (r: Self) {
        ClockError::MissingRcuBase
    }
}

impl vstd::std_specs::convert::FromSpecImpl<DescriptorError> for ClockError {
    open spec fn obeys_from_spec() -> bool {
        true
    }

    open spec fn from_spec(_e: DescriptorError) -> Self {
        ClockError::MissingRcuBase
    }
}

/// A PWM write was refused.
#[non_exhaustive]
#[derive(Debug, Clone, Copy, PartialEq, Eq, Structural)]
pub enum PwmError {
    /// A compare value above the period.
    DutyOutOfRange,
    /// The timer base is not one of an advanced timer.
    BadTimerBase,
    /// Anything else.
    Other,
}

/// The motor hot path was not brought up.
#[non_exhaustive]
#[derive(Debug, Clone, Copy, PartialEq, Eq, Structural)]
pub enum HotPathError {
    /// The PWM side failed.
    Pwm(PwmError),
    /// The ADC side failed.
    Adc(AdcError),
    /// The chip description does not carry what is needed.
    Descriptor(DescriptorError),
}

impl From<PwmError> for HotPathError {
    fn from(e: PwmError) -> (r: Self) {
        HotPathError::Pwm(e)
    }
}

impl vstd::std_specs::convert::FromSpecImpl<PwmError> for HotPathError {
    open spec fn obeys_from_spec() -> bool {
        true
    }

    open spec fn from_spec(e: PwmError) -> Self {
        HotPathError::Pwm(e)
    }
}

impl From<AdcError> for HotPathError {
    fn from(e: AdcError) -> (r: Self) {
        HotPathError::Adc(e)
    }
}

impl vstd::std_specs::convert::FromSpecImpl<AdcError> for HotPathError {
    open spec fn obeys_from_spec() -> bool {
        true
    }

    open spec fn from_spec(e: AdcError) -> Self {
        HotPathError::Adc(e)
    }
}

impl From<DescriptorError> for HotPathError {
    fn from(e: DescriptorError) -> (r: Self) {
        HotPathError::Descriptor(e)
    }
}

impl vstd::std_specs::convert::FromSpecImpl<DescriptorError> for HotPathError {
    open spec fn obeys_from_spec() -> bool {
        true
    }

    open spec fn from_spec(e: DescriptorError) -> Self {
        HotPathError::Descriptor(e)
    }
}

/// An I2C error belongs to the portable class of its name; a wait that ran out and anything unnamed
/// belong to none more specific.
pub proof fn law_i2c_classes(e: I2cError)
    ensures
        e.class() is Bus <==> e is Bus,
        e.class() is ArbitrationLoss <==> e is ArbitrationLoss,
        e.class() == I2cErrorKind::NoAcknowledge(NoAcknowledgeSource::Address) <==> e
            is NoAcknowledgeAddress,
        e.class() == I2cErrorKind::NoAcknowledge(NoAcknowledgeSource::Data) <==> e
            is NoAcknowledgeData,
        e.class() is Overrun <==> e is Overrun,
        e.class() is Other <==> e is Timeout || e is Other,
{
}

/// A SPI error belongs to the portable class of its name; a wrong checksum and anything unnamed
/// belong to none more specific.
pub proof fn law_spi_classes(e: SpiError)
    ensures
        e.class() is ModeFault <==> e is ModeFault,
        e.class() is Overrun <==> e is Overrun,
        e.class() is Other <==> e is Crc || e is Other,
{
}

} // verus!
