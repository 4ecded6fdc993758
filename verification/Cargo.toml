[package]
name = "query_sandbox"
version = "0.1.0"
edition = "2021"
publish = false

[dependencies]
hmac = "0.12"
sha2 = "0.10"
rand = "0.8"
serde_json = "1"
serde = { version = "1", features = ["derive"] }
anyhow = "1"
parking_lot = "0.12"
tokio = { version = "1", features = ["full"] }
rocket = "0.5"
