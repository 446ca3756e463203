//! What an application chooses.

use heapless::Vec as FixedVec;
use runtime_hal::addr::PeriphLabel;
use runtime_hal::config::{
    any_internal, decode_pin, AdcChannel, AdcClockDiv, AdcConfig, ClockDiv, DataSize,
    InjectedAdcConfig, InjectedChannel, NssMode, OcMode, Oversampling, Parity, Phase, Polarity,
    PwmAlign, SpiConfig, StopBits, TimerTriggerLink, TrgoSource, UsartFrame, WordLen,
};
use runtime_hal::descriptor::CounterWidth;

#[test]
fn a_pin_byte_is_a_port_and_a_number() {
    assert_eq!(decode_pin(0x00), (0, 0));
    assert_eq!(decode_pin(0x13), (1, 3));
    assert_eq!(decode_pin(0x59), (5, 9));
    for port in 0u8..16 {
        for number in 0u8..16 {
            assert_eq!(decode_pin(16 * port + number), (port, number));
        }
    }
}

#[test]
fn eight_n_one_is_the_default_frame() {
    let frame = UsartFrame::eight_n_one();
    assert_eq!(frame.word_len, WordLen::Eight);
    assert_eq!(frame.parity, Parity::Off);
    assert_eq!(frame.stop, StopBits::One);
    assert_eq!(UsartFrame::default(), frame);
    assert_eq!(Oversampling::default(), Oversampling::By16);
}

fn spi(mode: u8, data16: bool) -> SpiConfig {
    SpiConfig {
        spi: PeriphLabel::Spi0,
        sck: 0x05,
        miso: 0x06,
        mosi: 0x07,
        nss: 0x04,
        mode,
        data16,
        target_hz: 1_000_000,
        lsb_first: false,
        nss_mode: NssMode::default(),
    }
}

#[test]
fn the_four_spi_modes() {
    let of = |mode: u8| (spi(mode, false).mode().polarity, spi(mode, false).mode().phase);
    assert_eq!(of(0), (Polarity::IdleLow, Phase::CaptureOnFirstTransition));
    assert_eq!(of(1), (Polarity::IdleLow, Phase::CaptureOnSecondTransition));
    assert_eq!(of(2), (Polarity::IdleHigh, Phase::CaptureOnFirstTransition));
    assert_eq!(of(3), (Polarity::IdleHigh, Phase::CaptureOnSecondTransition));
    assert_eq!(of(4), of(0));
}

#[test]
fn the_spi_frame_size() {
    assert_eq!(spi(0, false).data_size(), DataSize::Eight);
    assert_eq!(spi(0, true).data_size(), DataSize::Sixteen);
    assert_eq!(NssMode::default(), NssMode::Software);
}

#[test]
fn register_codes() {
    assert_eq!(AdcClockDiv::Div2.psc_code(), 0);
    assert_eq!(AdcClockDiv::Div4.psc_code(), 1);
    assert_eq!(AdcClockDiv::default().psc_code(), 2);
    assert_eq!(AdcClockDiv::Div8.psc_code(), 3);
    assert_eq!(PwmAlign::EdgeUp.ctl0_bits(), 0);
    assert_eq!(PwmAlign::EdgeDown.ctl0_bits(), 0x10);
    assert_eq!(PwmAlign::Center1.ctl0_bits(), 0x20);
    assert_eq!(PwmAlign::default().ctl0_bits(), 0x40);
    assert_eq!(PwmAlign::Center3.ctl0_bits(), 0x60);
    assert_eq!(OcMode::default().comctl(), 6);
    assert_eq!(OcMode::Pwm1.comctl(), 7);
    assert_eq!(ClockDiv::Div1.ckdiv_code(), 0);
    assert_eq!(ClockDiv::default().ckdiv_code(), 1);
    assert_eq!(ClockDiv::Div4.ckdiv_code(), 2);
    let sources = [
        TrgoSource::Reset,
        TrgoSource::Enable,
        TrgoSource::Update,
        TrgoSource::Ch0Pulse,
        TrgoSource::Ch0Compare,
        TrgoSource::Ch1Compare,
        TrgoSource::Ch2Compare,
        TrgoSource::Ch3Compare,
    ];
    for (code, source) in sources.iter().enumerate() {
        assert_eq!(source.mmc(), code as u32);
    }
    assert_eq!(CounterWidth::Sixteen.max_count(), 0xFFFF);
    assert_eq!(CounterWidth::ThirtyTwo.max_count(), 0xFFFF_FFFF);
}

fn sequence(channels: &[u8]) -> AdcConfig {
    let mut list = FixedVec::new();
    for &channel in channels {
        list.push(AdcChannel {
            channel,
            sample_time: 7,
        })
        .unwrap();
    }
    AdcConfig {
        adc: PeriphLabel::Adc0,
        channels: list,
        left_aligned: false,
        clock_div: AdcClockDiv::default(),
    }
}

#[test]
fn internal_channels_need_switching_on() {
    assert!(!sequence(&[]).needs_internal_enable());
    assert!(!sequence(&[0, 5, 15]).needs_internal_enable());
    assert!(sequence(&[16]).needs_internal_enable());
    assert!(sequence(&[0, 1, 2, 3, 4, 5, 6, 17]).needs_internal_enable());
    assert!(any_internal(&[AdcChannel {
        channel: 17,
        sample_time: 0
    }]));
    assert!(!any_internal(&[AdcChannel {
        channel: 18,
        sample_time: 0
    }]));
}

#[test]
fn a_cloned_sequence_is_its_own() {
    let first = sequence(&[3, 17]);
    let mut second = first.clone();
    assert_eq!(second, first);
    assert!(second.needs_internal_enable());
    second.channels.clear();
    assert!(!second.needs_internal_enable());
    assert!(first.needs_internal_enable());

    let mut channels = FixedVec::new();
    channels
        .push(InjectedChannel {
            channel: 4,
            sample_time: 1,
        })
        .unwrap();
    let injected = InjectedAdcConfig {
        adc: PeriphLabel::Adc1,
        channels,
        left_aligned: true,
        trigger_timer: PeriphLabel::Timer0,
        trigger_link: TimerTriggerLink::Trgo,
        clock_div: AdcClockDiv::Div6,
    };
    let mut other = injected.clone();
    assert_eq!(other, injected);
    other.channels.clear();
    assert_eq!(injected.channels.len(), 1);
    assert_ne!(other, injected);
}
