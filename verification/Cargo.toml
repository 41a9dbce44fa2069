[package]
name = "sv_mint"
version = "0.1.0"
edition = "2021"
publish = false

[dependencies]
anyhow = "1"
clap = { version = "4", features = ["derive"] }
serde = { version = "1", features = ["derive"] }
serde_json = "1"
toml = "0.8"
sv-parser = "0.13"
thiserror = "1"
tokio = { version = "1", features = ["rt-multi-thread", "process", "io-util", "sync", "time"] }
tracing = "0.1"
tracing-subscriber = { version = "0.3", features = ["env-filter", "json", "fmt"] }
regex = "1"
log = "0.4"
env_logger = "0.11"
