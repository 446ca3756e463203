//! Labels and the address table.

use runtime_hal::addr::{AddrTable, PeriphLabel};
use runtime_hal::error::DescriptorError;

#[test]
fn m1_discriminants_are_stable() {
    assert_eq!(PeriphLabel::Usart0 as u8, 0);
    assert_eq!(PeriphLabel::Usart1 as u8, 1);
    assert_eq!(PeriphLabel::Usart2 as u8, 2);
    assert_eq!(PeriphLabel::Gpioa as u8, 3);
    assert_eq!(PeriphLabel::Gpiob as u8, 4);
    assert_eq!(PeriphLabel::Gpioc as u8, 5);
    assert_eq!(PeriphLabel::Gpiod as u8, 6);
    assert_eq!(PeriphLabel::Gpioe as u8, 7);
    assert_eq!(PeriphLabel::Gpiof as u8, 8);
    assert_eq!(PeriphLabel::Rcu as u8, 9);
    assert_eq!(PeriphLabel::I2c0 as u8, 10);
    assert_eq!(PeriphLabel::I2c1 as u8, 11);
    assert_eq!(PeriphLabel::Spi0 as u8, 12);
    assert_eq!(PeriphLabel::Spi1 as u8, 13);
    assert_eq!(PeriphLabel::Adc0 as u8, 14);
    assert_eq!(PeriphLabel::Adc1 as u8, 15);
    assert_eq!(PeriphLabel::Timer0 as u8, 16);
    assert_eq!(PeriphLabel::Timer7 as u8, 17);
    assert_eq!(PeriphLabel::Fwdgt as u8, 18);
    assert_eq!(PeriphLabel::Rcu.index(), 9);
    assert_eq!(PeriphLabel::Adc1.index(), 15);
    assert_eq!(PeriphLabel::Timer0.index(), 16);
    assert_eq!(PeriphLabel::Timer7.index(), 17);
    assert_eq!(PeriphLabel::Fwdgt.index(), 18);
    assert_eq!(PeriphLabel::COUNT, 19);
}

#[test]
fn class_helpers() {
    assert!(PeriphLabel::I2c0.is_i2c() && PeriphLabel::I2c1.is_i2c());
    assert!(PeriphLabel::Spi0.is_spi() && PeriphLabel::Spi1.is_spi());
    assert!(PeriphLabel::Adc0.is_adc() && PeriphLabel::Adc1.is_adc());
    assert!(PeriphLabel::Timer0.is_timer() && PeriphLabel::Timer7.is_timer());
    assert!(PeriphLabel::Fwdgt.is_fwdgt());
    assert!(!PeriphLabel::Rcu.is_i2c());
    assert!(!PeriphLabel::Usart1.is_spi());
    assert!(!PeriphLabel::Adc0.is_timer());
    assert!(!PeriphLabel::Timer0.is_fwdgt());
}

#[test]
fn check_fwdgt_base_accepts_apb1_window_and_rejects_others() {
    let mut t = AddrTable::new();
    t.set(PeriphLabel::Fwdgt, 0x4000_3000);
    assert_eq!(t.check_fwdgt_base(PeriphLabel::Fwdgt), Ok(()));
    t.set(PeriphLabel::Fwdgt, 0x4000_3800);
    assert_eq!(
        t.check_fwdgt_base(PeriphLabel::Fwdgt),
        Err(DescriptorError::SelectorAddrMismatch)
    );
    assert_eq!(
        t.check_fwdgt_base(PeriphLabel::Timer0),
        Err(DescriptorError::UnknownSelector)
    );
}

#[test]
fn check_timer_base_accepts_apb2_window() {
    let mut t = AddrTable::new();
    t.set(PeriphLabel::Timer0, 0x4001_2C00);
    t.set(PeriphLabel::Timer7, 0x4001_3400);
    assert_eq!(t.check_timer_base(PeriphLabel::Timer0), Ok(()));
    assert_eq!(t.check_timer_base(PeriphLabel::Timer7), Ok(()));
}

#[test]
fn check_timer_base_rejects_out_of_window_and_non_timer() {
    let mut t = AddrTable::new();
    t.set(PeriphLabel::Timer0, 0x4001_2400);
    assert_eq!(
        t.check_timer_base(PeriphLabel::Timer0),
        Err(DescriptorError::SelectorAddrMismatch)
    );
    t.set(PeriphLabel::Timer0, 0x4001_3800);
    assert_eq!(
        t.check_timer_base(PeriphLabel::Timer0),
        Err(DescriptorError::SelectorAddrMismatch)
    );
    assert_eq!(
        t.check_timer_base(PeriphLabel::Adc0),
        Err(DescriptorError::UnknownSelector)
    );
    assert_eq!(
        t.check_timer_base(PeriphLabel::Timer7),
        Err(DescriptorError::MissingBase(PeriphLabel::Timer7))
    );
}

#[test]
fn check_i2c_base_accepts_apb1_window() {
    let mut t = AddrTable::new();
    t.set(PeriphLabel::I2c0, 0x4000_5400); // I2C0
    t.set(PeriphLabel::I2c1, 0x4000_5800); // I2C1
    assert_eq!(t.check_i2c_base(PeriphLabel::I2c0), Ok(()));
    assert_eq!(t.check_i2c_base(PeriphLabel::I2c1), Ok(()));
}

#[test]
fn check_i2c_base_rejects_out_of_window_and_non_i2c() {
    let mut t = AddrTable::new();
    t.set(PeriphLabel::I2c0, 0x4001_3000); // a SPI0 base, wrong window
    assert_eq!(
        t.check_i2c_base(PeriphLabel::I2c0),
        Err(DescriptorError::SelectorAddrMismatch)
    );
    assert_eq!(
        t.check_i2c_base(PeriphLabel::Rcu),
        Err(DescriptorError::UnknownSelector)
    );
    assert_eq!(
        t.check_i2c_base(PeriphLabel::I2c1),
        Err(DescriptorError::MissingBase(PeriphLabel::I2c1))
    );
}

#[test]
fn check_spi_base_handles_both_buses() {
    let mut t = AddrTable::new();
    t.set(PeriphLabel::Spi0, 0x4001_3000);
    assert_eq!(t.check_spi_base(PeriphLabel::Spi0), Ok(()));
    t.set(PeriphLabel::Spi0, 0x4000_3800);
    assert_eq!(t.check_spi_base(PeriphLabel::Spi0), Ok(()));
    t.set(PeriphLabel::Spi1, 0x4000_3800);
    assert_eq!(t.check_spi_base(PeriphLabel::Spi1), Ok(()));
    t.set(PeriphLabel::Spi1, 0x4001_3000);
    assert_eq!(
        t.check_spi_base(PeriphLabel::Spi1),
        Err(DescriptorError::SelectorAddrMismatch)
    );
    assert_eq!(
        t.check_spi_base(PeriphLabel::Adc0),
        Err(DescriptorError::UnknownSelector)
    );
}

#[test]
fn check_adc_base_accepts_apb2_window() {
    let mut t = AddrTable::new();
    t.set(PeriphLabel::Adc0, 0x4001_2400);
    t.set(PeriphLabel::Adc1, 0x4001_2800);
    assert_eq!(t.check_adc_base(PeriphLabel::Adc0), Ok(()));
    assert_eq!(t.check_adc_base(PeriphLabel::Adc1), Ok(()));
    t.set(PeriphLabel::Adc0, 0x4000_5400);
    assert_eq!(
        t.check_adc_base(PeriphLabel::Adc0),
        Err(DescriptorError::SelectorAddrMismatch)
    );
}

#[test]
fn check_usart_base_knows_the_bus_of_each() {
    let mut t = AddrTable::default();
    t.set(PeriphLabel::Usart0, 0x4001_3800);
    t.set(PeriphLabel::Usart1, 0x4000_4400);
    assert_eq!(t.check_usart_base(PeriphLabel::Usart0), Ok(()));
    assert_eq!(t.check_usart_base(PeriphLabel::Usart1), Ok(()));
    assert_eq!(
        t.check_usart_base(PeriphLabel::Usart2),
        Err(DescriptorError::MissingBase(PeriphLabel::Usart2))
    );
    t.set(PeriphLabel::Usart1, 0x4001_3800);
    assert_eq!(
        t.check_usart_base(PeriphLabel::Usart1),
        Err(DescriptorError::SelectorAddrMismatch)
    );
    assert_eq!(
        t.check_usart_base(PeriphLabel::Spi0),
        Err(DescriptorError::UnknownSelector)
    );
}

#[test]
fn a_table_maps_labels_to_bases() {
    let t = AddrTable::new()
        .with(true, PeriphLabel::Timer7, 0x4001_3400)
        .with(false, PeriphLabel::Adc1, 0x4001_2800);
    assert_eq!(t.get(PeriphLabel::Timer7), Some(0x4001_3400));
    assert_eq!(t.get(PeriphLabel::Adc1), None);
    assert_eq!(
        t.resolve(PeriphLabel::Adc1),
        Err(DescriptorError::MissingBase(PeriphLabel::Adc1))
    );
    assert!(PeriphLabel::Gpioe.is_gpio());
    assert!(!PeriphLabel::Rcu.is_gpio());
    let labels = [PeriphLabel::Timer1, PeriphLabel::Adc2];
    assert_eq!(labels.map(|l| l.index()), [19, 20]);
}
