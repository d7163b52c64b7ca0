[package]
name = "dsp_core"
version = "0.1.0"
edition = "2021"
publish = false

[dependencies]
serde = { version = "*", features = ["derive"] }
atomic_float = "*"
