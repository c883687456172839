[package]
name = "embrio"
version = "0.1.0"
edition = "2021"
publish = false

[dependencies]
futures-core = { version = "=0.3.34", default-features = false }
futures-util = { version = "=0.3.34", default-features = false }
nrf51 = "=0.9.0"
