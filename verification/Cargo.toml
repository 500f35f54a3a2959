[package]
name = "schellen_bridge_rs"
version = "0.1.0"
edition = "2021"
publish = false

[dependencies]
bytes = "1"
color-eyre = "0.6"
futures = "0.3"
rocket = "0.5"
tokio = { version = "1", features = ["rt-multi-thread", "macros", "sync", "time"] }
tokio-serial = "5"
tokio-util = { version = "0.7", features = ["codec"] }
tracing = "0.1"
tracing-subscriber = "0.3"
