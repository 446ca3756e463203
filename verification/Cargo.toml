[package]
name = "runtime_hal"
version = "0.1.0"
edition = "2021"
publish = false

[dependencies]
cortex-m = "0.7"
embedded-hal = "1.0"
embedded-io = "0.6"
heapless = "0.8"
