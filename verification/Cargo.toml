[package]
name = "hands_hub"
version = "0.1.0"
edition = "2021"
publish = false

[dependencies]
evdev = { version = "0.12", features = ["tokio"] }
tokio = { version = "1", features = ["rt-multi-thread", "macros"] }
tokio-serial = "5"
