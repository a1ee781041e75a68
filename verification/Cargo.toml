[package]
name = "oxyde"
version = "0.1.0"
edition = "2021"
publish = false

[dependencies]
rand = "=0.8.8"
serde = { version = "=1.0.229", features = ["derive"] }
serde_json = "=1.0.154"
serde_yaml = "=0.9.34"
toml = "=0.8.23"
tokio = { version = "=1.54.1", features = ["sync", "time", "rt", "macros"] }
async-trait = "=0.1.92"
uuid = { version = "=1.29.1", features = ["v4", "v7"] }
thiserror = "=1.0.69"
log = "=0.4.35"
dotenvy = "=0.15.7"
reqwest = { version = "=0.12.28", default-features = false, features = ["json", "rustls-tls"] }
env_logger = "0.11"
