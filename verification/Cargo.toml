[package]
name = "redis_backed"
version = "0.1.0"
edition = "2021"
publish = false

[dependencies]
redis = "0.13"
serde = { version = "1", features = ["derive"] }
serde_cbor = "0.11"
crossbeam-channel = "0.5"
futures = "0.1"
tokio = "0.1"
failure = "0.1"
