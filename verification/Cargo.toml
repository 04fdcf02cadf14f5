[package]
name = "co2db"
version = "0.1.0"
edition = "2021"
publish = false

[dependencies]
rusqlite = "0.29"
chrono = "0.4"
clap = "2"
serde = { version = "1", features = ["derive"] }
serde_json = "1"
paho-mqtt = "0.12"
signal-hook = "0.3"
log = "0.4"
env_logger = "0.10"
tokio = { version = "1", features = ["full"] }
axum = "0.6"
reqwest = { version = "0.11", features = ["json"] }
futures = "0.3"
