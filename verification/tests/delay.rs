//! Delays.

use runtime_hal::delay::{cycles_for_ms, cycles_for_ns, cycles_for_us, Countdown};

#[test]
fn one_millisecond_at_8mhz_is_8000_cycles() {
    assert_eq!(cycles_for_ns(1_000_000, 8_000_000), 8_000);
}

#[test]
fn one_millisecond_at_72mhz_is_72000_cycles() {
    assert_eq!(cycles_for_ns(1_000_000, 72_000_000), 72_000);
}

#[test]
fn one_microsecond_at_8mhz_is_8_cycles() {
    assert_eq!(cycles_for_ns(1_000, 8_000_000), 8);
}

#[test]
fn rounds_up_to_never_underdelay() {
    assert_eq!(cycles_for_ns(1, 8_000_000), 1);
    assert_eq!(cycles_for_ns(125, 8_000_000), 1);
    assert_eq!(cycles_for_ns(126, 8_000_000), 2);
}

#[test]
fn zero_ns_is_zero_cycles() {
    assert_eq!(cycles_for_ns(0, 72_000_000), 0);
}

#[test]
fn large_value_does_not_overflow() {
    assert_eq!(cycles_for_ns(4_000_000_000, 72_000_000), 288_000_000);
}

#[test]
fn microseconds_and_milliseconds_round_up() {
    assert_eq!(cycles_for_us(1, 8_000_000), 8);
    assert_eq!(cycles_for_us(3, 1_500_000), 5);
    assert_eq!(cycles_for_us(0, 72_000_000), 0);
    assert_eq!(cycles_for_ms(1, 72_000_000), 72_000);
    assert_eq!(cycles_for_ms(3, 1_500), 5);
    assert_eq!(
        cycles_for_ms(u32::MAX, u32::MAX),
        (u32::MAX as u64 * u32::MAX as u64).div_ceil(1_000)
    );
}

#[test]
fn a_product_out_of_range_is_capped() {
    assert_eq!(cycles_for_ns(u64::MAX, 2), 18_446_744_074);
}

#[test]
fn a_long_delay_is_counted_out_in_pieces() {
    let mut delay = Countdown::new(2 * 0x00FF_FFFF + 5);
    assert_eq!(delay.next_reload(), Some(0x00FF_FFFE));
    assert_eq!(delay.next_reload(), Some(0x00FF_FFFE));
    assert_eq!(delay.next_reload(), Some(4));
    assert_eq!(delay.next_reload(), None);
    assert_eq!(delay.left, 0);
}

#[test]
fn the_pieces_of_a_delay_add_up() {
    for cycles in [0u64, 1, 0x00FF_FFFE, 0x00FF_FFFF, 0x0100_0000, 288_000_000] {
        let mut delay = Countdown::new(cycles);
        let mut total = 0u64;
        while let Some(reload) = delay.next_reload() {
            assert!(reload < 0x0100_0000);
            total += reload as u64 + 1;
        }
        assert_eq!(total, cycles);
    }
}
