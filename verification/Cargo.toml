[package]
name = "rdpweb"
version = "0.1.0"
edition = "2021"
publish = false

[dependencies]
anyhow = "=1.0.104"
axum = { version = "=0.8.9", features = ["ws"] }
clap = { version = "=4.6.7", features = ["derive", "env"] }
env_logger = "=0.11.11"
futures-util = "=0.3.34"
ironrdp = { version = "=0.17.0", default-features = false, features = ["core", "dvc", "graphics", "pdu", "svc"] }
ironrdp-egfx = { version = "0.3", default-features = false }
log = "=0.4.35"
serde = { version = "=1.0.229", features = ["derive"] }
serde_json = "=1.0.154"
tokio = { version = "=1.54.1", features = ["io-util", "macros", "net", "rt-multi-thread", "signal", "sync", "time"] }
tokio-rustls = { version = "=0.26.6", default-features = false, features = ["ring"] }
toml = "=1.1.8"
