[package]
name = "mc1322x"
version = "0.1.0"
edition = "2021"
publish = false

[dependencies]
byte = "=0.2.7"
critical-section = { version = "=1.2.0", features = ["restore-state-u32"] }
dot15d4 = "=0.1.2"
embassy-time-driver = { version = "=0.2.2", features = ["tick-hz-1_000"] }
embassy-time-queue-utils = { version = "=0.3.2", features = ["generic-queue-64"] }
embedded-cal = "=0.2.0"
embedded-hal = "=1.0.0"
embedded-hal-async = "=1.0.0"
embedded-io = "=0.7.1"
embedded-io-async = "=0.7.0"
embedded-storage = "=0.3.2"
embedded-time = "=0.12.1"
flash-algorithm = { version = "=0.7.0", default-features = false, features = ["erase-chip", "verify"] }
fugit = "=0.6.0"
ieee802154 = "=0.6.1"
portable-atomic = "=1.15.0"
radio = "=0.12.1"
rand_core = "=0.10.1"
