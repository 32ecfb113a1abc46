[package]
name = "traac"
version = "0.1.0"
edition = "2021"
publish = false

[dependencies]
chrono = "*"
dirs = "*"
urlencoding = "*"
last-fm-rs = "*"
serde = { version = "1", features = ["derive"] }
serde_json = "1"
toml = "*"
clap = { version = "4", features = ["derive"] }
reqwest = "*"
notify-rust = "*"
open = "*"
env_logger = "*"
log = "0.4"
thiserror = "*"
mpris = "*"
