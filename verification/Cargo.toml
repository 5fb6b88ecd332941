[package]
name = "arti_core"
version = "0.1.0"
edition = "2021"
publish = false

[dependencies]
tor-llcrypto = "=0.47.0"
digest = "=0.10.7"
base64ct = { version = "=1.8.3", features = ["alloc"] }
futures = "=0.3.34"
hyper = { version = "=0.14.32", features = ["client", "http1"] }
tokio = { version = "=1.54.1", features = ["io-util"] }
pin-project = "=1.1.13"
thiserror = "=1.0.69"
anyhow = "=1.0.104"
tls-api = "=0.12.0"
tor-error = "=0.47.0"
tor-units = "=0.47.0"
tracing = "=0.1.44"
tor-config = { version = "0.47", default-features = false }
