[package]
name = "endless_server"
version = "0.1.0"
edition = "2021"
publish = false

[dependencies]
tokio = { version = "1", features = ["rt-multi-thread", "macros", "net", "sync", "time"] }
tokio-tungstenite = { version = "0.20" }
futures-util = { version = "0.3" }
log = { version = "0.4" }
env_logger = { version = "0.10" }
