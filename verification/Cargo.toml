[package]
name = "cassowary"
version = "0.1.0"
edition = "2021"
publish = false

[dependencies]
crossbeam-channel = "0.5"
rand = "0.8"
rodio = { version = "0.14", default-features = false }
thiserror = "1"
