[package]
name = "displaylight"
version = "0.1.0"
edition = "2021"
publish = false

[dependencies]
serialport = { version = "*", default-features = false }
clap = "*"
serde = { version = "*", features = ["derive"] }
serde_yaml = "*"
