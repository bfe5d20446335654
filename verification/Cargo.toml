[package]
name = "sharder"
version = "0.1.0"
edition = "2021"
publish = false

[dependencies]
serenity = "=0.12.5"
tokio = { version = "*", features = ["macros", "rt-multi-thread", "time", "sync"] }
tokio-tungstenite = { version = "*", features = ["rustls-tls-webpki-roots"] }
futures = "*"
redis-async = "=0.18.0"
serde_json = "*"
log = "*"
env_logger = "*"
kankyo = "=0.3.0"
