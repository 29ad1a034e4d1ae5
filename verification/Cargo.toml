[package]
name = "simple_chat"
version = "0.1.0"
edition = "2021"
publish = false

[dependencies]
display-info = "0.5"
log = "0.4"
pretty_env_logger = "0.5"
serde = { version = "1", features = ["derive"] }
serde_json = "1"
tokio = { version = "1", features = ["rt-multi-thread", "net", "io-util", "sync", "macros"] }
