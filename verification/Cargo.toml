[package]
name = "merkle_pages"
version = "0.1.0"
edition = "2021"
publish = false

[dependencies]
tiny-keccak = { version = "2.0.2", features = ["keccak"] }
anyhow = "1"
clap = { version = "4", features = ["derive"] }
serde = { version = "1", features = ["derive"] }
serde_yaml = "0.9"
log = "0.4"
env_logger = "0.10"
