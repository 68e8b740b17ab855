[package]
name = "synth_backend"
version = "0.1.0"
edition = "2021"
publish = false

[dependencies]
rodio = "*"

[dev-dependencies]
hound = "*"
