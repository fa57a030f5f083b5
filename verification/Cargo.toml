[package]
name = "neuroloop"
version = "0.1.0"
edition = "2021"
publish = false

[dependencies]
chrono = "0.4"
colored = "2"
csv = "1"
rand = "0.8"
serde = { version = "1", features = ["derive"] }
serde_yaml = "0.9"
