[package]
name = "dexhunter"
version = "0.1.0"
edition = "2021"
publish = false

[dependencies]
anyhow = "1"
clap = { version = "4", features = ["derive"] }
env_logger = "*"
nix = { version = "*", features = ["uio", "process"] }
regex = "1"
