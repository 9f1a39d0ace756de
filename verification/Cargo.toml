[package]
name = "ethglobal_ics"
version = "0.1.0"
edition = "2021"
publish = false

[dependencies]
uuid = { version = "1", features = ["v5"] }
serde_json = "1"
poem = "3"
reqwest = { version = "0.12", default-features = false }
async-std = { version = "1", features = ["attributes"] }
tracing = "0.1"
tracing-subscriber = "0.3"
dotenvy = "0.15"
