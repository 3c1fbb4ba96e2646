[package]
name = "embassy-nxp"
version = "0.1.0"
edition = "2021"
publish = false

[dependencies]
cortex-m = "0.7"
critical-section = "1"
embassy-executor = "0.10"
embassy-futures = "0.1"
embassy-hal-internal = "0.5"
embassy-sync = "0.8"
embassy-time-driver = "0.2"
embassy-time-queue-utils = { version = "0.3", features = ["generic-queue-8"] }
embedded-hal = "1"
embedded-hal-async = "1"
embedded-io = "0.7"
embedded-io-async = "0.7"
