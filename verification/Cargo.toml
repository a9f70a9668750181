[package]
name = "pyin_rs"
version = "0.1.0"
edition = "2021"
publish = false

[dependencies]
rustfft = "6"
symphonia = "0.5"
