[package]
name = "chat_relay"
version = "0.1.0"
edition = "2021"
publish = false

[dependencies]
anyhow = "1"
futures = "0.3"
log = "0.4"
log4rs = "1"
reqwest = { version = "0.11", features = ["blocking"] }
serde_json = "1"
telegram-bot = "0.8"
tokio = { version = "1", features = ["full"] }
