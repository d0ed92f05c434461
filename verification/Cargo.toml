[package]
name = "mcscan"
version = "0.1.0"
edition = "2021"
publish = false

[dependencies]
serde_json = "1"
serde = { version = "1", features = ["derive"] }
tokio = { version = "1", features = ["rt-multi-thread", "net", "time", "io-util", "macros"] }
futures = "0.3"
log = "0.4"
env_logger = "0.10"
anyhow = "1"
async-minecraft-ping = "*"
