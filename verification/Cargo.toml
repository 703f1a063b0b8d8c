[package]
name = "asylum_core"
version = "0.1.0"
edition = "2021"
publish = false

[dependencies]
parity-scale-codec = { version = "3.7.5", features = ["derive"] }
scale-info = { version = "2.11.6", features = ["derive"] }
serde = { version = "1.0.229", features = ["derive"] }
sp-std = "14.0.0"
sp-runtime = "*"
frame-support = "*"
frame-system = "*"
