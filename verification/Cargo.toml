[package]
name = "co2_sensor"
version = "0.1.0"
edition = "2021"
publish = false

[dependencies]
serde_json = "1"
serialport = { version = "4", default-features = false }
reqwest = { version = "0.11", default-features = false, features = ["blocking"] }
