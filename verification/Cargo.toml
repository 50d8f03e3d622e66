[package]
name = "stm32_usb"
version = "0.1.0"
edition = "2021"
publish = false

[dependencies]
cortex-m = "=0.7.10"
critical-section = { version = "=1.2.0", features = ["std"] }
embassy-hal-internal = "=0.5.0"
embassy-sync = "=0.8.0"
embassy-time = "=0.5.1"
embassy-usb-driver = "=0.2.2"
stm32-metapac = { version = "=21.0.0", features = ["stm32f072rb"] }
