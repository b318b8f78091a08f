[package]
name = "erpc_rust"
version = "0.1.0"
edition = "2021"
publish = false

[dependencies]
async-trait = "0.1"
futures = "0.3"
futures-timer = "3"
nusb = "0.2"
