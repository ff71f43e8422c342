[package]
name = "educhain"
version = "0.1.0"
edition = "2021"
publish = false

[dependencies]
sha2 = "=0.10.9"
hex = "=0.4.3"
multiversx-sc = "=0.66.2"
multiversx-sc-modules = "=0.66.2"
multiversx-sc-snippets = "=0.66.2"
serde = { version = "=1.0.229", features = ["derive"] }
serde_json = "=1.0.154"
toml = "=1.1.8"
clap = { version = "=4.6.7", features = ["derive"] }
tokio = { version = "=1.54.1", features = ["macros", "rt-multi-thread", "time"] }
env_logger = "=0.11.11"
