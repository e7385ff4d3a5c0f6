[package]
name = "mimir"
version = "0.1.0"
edition = "2021"
publish = false

[dependencies]
chrono = "=0.4.45"

[dev-dependencies]
hex-slice = "*"
