[package]
name = "serial_relay"
version = "0.1.0"
edition = "2021"
publish = false

[dependencies]
clap = { version = "*", features = ["derive"] }
inline_colorization = "*"
serialport = { version = "*", default-features = false }
