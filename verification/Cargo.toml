[package]
name = "uart_16550"
version = "0.1.0"
edition = "2021"
publish = false

[dependencies]
embassy-hal-internal = "=0.5.0"
embassy-sync = "=0.8.0"
embedded-io-async = "=0.7.0"

[dev-dependencies]
critical-section = { version = "=1.2.0", features = ["std"] }
