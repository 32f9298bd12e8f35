[package]
name = "repogpt"
version = "0.1.0"
edition = "2021"
publish = false

[dependencies]
anyhow = "=1.0.104"
async-openai = { version = "=0.42.1", features = ["embedding"] }
clap = { version = "=4.6.7", features = ["derive"] }
env_logger = "=0.11.11"
indicatif = "=0.18.6"
log = "=0.4.34"
regex = "=1.13.1"
serde = { version = "=1.0.229", features = ["derive"] }
serde_json = "=1.0.151"
tokio = { version = "=1.53.2", features = ["macros", "rt-multi-thread"] }
toml = "=1.1.7"
walkdir = "=2.5.0"
