[package]
name = "macos_trackpad_companion"
version = "0.1.0"
edition = "2021"
publish = false

[dependencies]
sha1 = "0.10"
getrandom = "0.3"
toml = "0.8"
serde = { version = "1", features = ["derive"] }
serde_json = "1"
anyhow = "1"
clap = { version = "4", features = ["derive"] }
log = "0.4"
env_logger = "0.11"
crossterm = "0.28"
ratatui = "0.29"
