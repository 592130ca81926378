[package]
name = "wave_vpi"
version = "0.1.0"
edition = "2021"
publish = false

[dependencies]
wellen = { version = "=0.25.6", features = ["serde1"] }
byteorder = "=1.5.0"
bytesize = "=2.7.0"
serde = { version = "=1.0.229", features = ["derive"] }
serde_yaml = "=0.9.34"
