[package]
name = "input_relay"
version = "0.1.0"
edition = "2021"
publish = false

[dependencies]
evdev = { version = "0.13", features = ["tokio"] }
futures = "0.3"
tokio = { version = "1", features = ["rt", "rt-multi-thread", "sync", "time"] }
tracing = "0.1"
