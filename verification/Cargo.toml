[package]
name = "msp_bridge"
version = "0.1.0"
edition = "2021"
publish = false

[dependencies]
crc-any = "2"
clap = { version = "4", features = ["derive"] }
log = "0.4"
serialport = { version = "4", default-features = false }
mavlink = "*"

[dev-dependencies]
rand = "0.8"
