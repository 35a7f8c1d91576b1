[package]
name = "cnano-rs"
version = "0.1.0"
edition = "2021"
publish = false

[dependencies]
arraydeque = "=0.5.1"
crc16 = "=0.4.0"
keyberon = "=0.1.1"
num = "=0.4.3"
fixed = "=1.31.0"
embassy-executor = { version = "=0.10.0", default-features = false }
embassy-futures = "=0.1.2"
embassy-sync = "=0.8.0"
embassy-time = "=0.5.1"
embassy-usb = "=0.6.0"
embassy-rp = { version = "=0.10.0", features = ["rp2040", "time-driver", "critical-section-impl"] }
embedded-hal = "=1.0.0"
embedded-hal-async = "=1.0.0"
embedded-hal-bus = { version = "=0.3.0", features = ["async"] }
futures = { version = "=0.3.34", default-features = false, features = ["async-await"] }
usbd-hid = "=0.10.2"
