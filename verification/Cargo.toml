[package]
name = "tailtrans"
version = "0.1.0"
edition = "2021"
publish = false

[dependencies]
anyhow = "1"
clap = { version = "4", features = ["derive", "env"] }
crypto-hash = "*"
encoding_rs = "0.8"
env_logger = "*"
log = "0.4"
single-instance = "*"
