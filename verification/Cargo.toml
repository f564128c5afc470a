[package]
name = "rmixer"
version = "0.1.0"
edition = "2021"
publish = false

[dependencies]
anyhow = "1"
clap = { version = "4", features = ["derive"] }
crossterm = "*"
env_logger = "*"
jack = "*"
log = "0.4"
ratatui = "*"
rtrb = "*"
serde = { version = "1", features = ["derive"] }
serde_yaml = "0.9"
