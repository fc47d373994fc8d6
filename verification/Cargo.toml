[package]
name = "codex_channels"
version = "0.1.0"
edition = "2021"
publish = false

[dependencies]
anyhow = "=1.0.104"
async-channel = "=2.5.0"
futures = "=0.3.34"
regex-lite = "=0.1.9"
rmcp = { version = "=0.15.0", features = ["client"] }
serde = { version = "=1.0.229", features = ["derive"] }
serde_json = "=1.0.154"
thiserror = "=2.0.21"
tokio = { version = "=1.54.1", features = ["rt", "time", "sync"] }
tokio-util = "=0.7.20"
tracing = "=0.1.44"
