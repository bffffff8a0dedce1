[package]
name = "piebot"
version = "0.1.0"
edition = "2021"
publish = false

[dependencies]
cozy-chess = "0.3"
rand = { version = "0.8", features = ["small_rng"] }
clap = { version = "4", features = ["derive"] }
serde_json = "1"
env_logger = "*"
