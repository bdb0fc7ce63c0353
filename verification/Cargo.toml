[package]
name = "xiv_overlay"
version = "0.1.0"
edition = "2021"
publish = false

[dependencies]
async-channel = "*"
serde = { version = "*", features = ["derive"] }
serde_yaml = "*"
log = "*"
pretty_env_logger = "*"
