[package]
name = "zeitpeer"
version = "0.1.0"
edition = "2021"
publish = false

[dependencies]
anyhow = "=1.0.104"
axum = "=0.7.9"
bincode = "=1.3.3"
libc = "=0.2.191"
nix = { version = "=0.29.0", features = ["time"] }
redis = { version = "=0.25.5", features = ["tokio-comp"] }
serde = { version = "=1.0.229", features = ["derive"] }
tokio = { version = "=1.54.1", features = ["full"] }
toml = "=0.8.23"
tracing = "=0.1.44"
tracing-subscriber = "=0.3.23"
