[package]
name = "overhead_sat"
version = "0.1.0"
edition = "2021"
publish = false

[dependencies]
serde_json = "*"
sgp4 = "*"
ureq = "*"
notify-rust = "*"
