[package]
name = "chat_server"
version = "0.1.0"
edition = "2021"
publish = false

[dependencies]
pwhash = "1"
serde_json = "1"
serde = { version = "1", features = ["derive"] }
toml = "0.8"
uuid = { version = "1", features = ["v4"] }
tokio = { version = "1", features = ["full"] }
log = "0.4"
env_logger = "0.10"
time = { version = "0.3", features = ["formatting", "parsing"] }
sqlite = "*"
