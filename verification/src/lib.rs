//! A runtime HAL for STM32F1-compatible Cortex-M3 parts (GD32F10x and GD32F1x0).
#![allow(unused_imports)]

pub mod reg;
pub mod regfile;
pub mod device;
pub mod addr;
pub mod descriptor;
pub mod error;
pub mod chip;
pub mod clock;
pub mod bits;
pub mod gpio;
pub mod i2c;
pub mod adc;
pub mod fmc;
pub mod config;
pub mod detect;
pub mod afio;
pub mod dbg;
pub mod delay;
pub mod timer;
pub mod trace;
pub mod hotpath;
pub mod dma;
