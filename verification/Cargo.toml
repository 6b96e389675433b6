[package]
name = "yaca_agent"
version = "0.1.0"
edition = "2021"
publish = false

[dependencies]
anyhow = "1"
async-stream = "0.3"
serde_json = "1"
tokio = { version = "1", features = ["macros", "rt-multi-thread", "signal", "sync"] }
tokio-stream = "0.1"
tokio-util = "0.7"
tonic = "*"
tracing-subscriber = "0.3"
uuid = { version = "1", features = ["v4"] }
