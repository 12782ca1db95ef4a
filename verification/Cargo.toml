[package]
name = "chat_core"
version = "0.1.0"
edition = "2021"
publish = false

[dependencies]
chrono = "*"
serde = { version = "*", features = ["derive"] }
serde_json = "*"
log = "*"
env_logger = "*"
once_cell = "*"
rocket = "*"
rocket_ws = "*"
rocket_prometheus = "*"
