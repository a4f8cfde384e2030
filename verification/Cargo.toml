[package]
name = "minidump"
version = "0.1.0"
edition = "2021"
publish = false

[dependencies]
range-map = "*"
log = "*"
serde_json = "*"
chrono = "*"
