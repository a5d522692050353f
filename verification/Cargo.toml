[package]
name = "picam_server"
version = "0.1.0"
edition = "2021"
publish = false

[dependencies]
actix-web = "*"
actix-files = "*"
tokio = { version = "*", features = ["process", "io-util", "time", "sync", "macros", "rt-multi-thread"] }
bytes = "*"
futures-util = "*"
log = "*"
env_logger = "*"
serde = { version = "*", features = ["derive"] }
serde_json = "*"
