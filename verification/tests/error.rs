//! The classes of errors.

use runtime_hal::error::{
    I2cError, I2cErrorKind as I2cKind, NoAcknowledgeSource, SpiError, SpiErrorKind as SpiKind,
};

#[test]
fn i2c_error_kinds_map_per_open_item_i2c2() {
    assert_eq!(I2cError::Bus.kind(), I2cKind::Bus);
    assert_eq!(I2cError::ArbitrationLoss.kind(), I2cKind::ArbitrationLoss);
    assert_eq!(
        I2cError::NoAcknowledgeAddress.kind(),
        I2cKind::NoAcknowledge(NoAcknowledgeSource::Address)
    );
    assert_eq!(
        I2cError::NoAcknowledgeData.kind(),
        I2cKind::NoAcknowledge(NoAcknowledgeSource::Data)
    );
    assert_eq!(I2cError::Overrun.kind(), I2cKind::Overrun);
    assert_eq!(I2cError::Timeout.kind(), I2cKind::Other);
    assert_eq!(I2cError::Other.kind(), I2cKind::Other);
}

#[test]
fn spi_error_kinds_map() {
    assert_eq!(SpiError::ModeFault.kind(), SpiKind::ModeFault);
    assert_eq!(SpiError::Overrun.kind(), SpiKind::Overrun);
    assert_eq!(SpiError::Crc.kind(), SpiKind::Other);
    assert_eq!(SpiError::Other.kind(), SpiKind::Other);
}
