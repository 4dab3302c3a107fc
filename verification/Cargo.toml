[package]
name = "pdp11"
version = "0.1.0"
edition = "2021"
publish = false

[dependencies]
clap = { version = "4", features = ["derive"] }
clap-stdin = "*"
env_logger = "*"
crossterm = "*"
serde_json = "*"
thiserror = "*"
log = "*"
