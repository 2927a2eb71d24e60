[package]
name = "fanout_bus"
version = "0.1.0"
edition = "2021"
publish = false

[dependencies]
futures-core = "*"
tokio = { version = "*", features = ["sync", "rt-multi-thread", "macros", "time"] }
tokio-stream = "*"
tonic = "*"
