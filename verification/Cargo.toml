[package]
name = "kv_client"
version = "0.1.0"
edition = "2021"
publish = false

[dependencies]
chrono = "0.4"
xxhash-rust = { version = "0.8", features = ["xxh3"] }
rand = "0.9"
uuid = { version = "1", features = ["v4", "serde"] }
serde = { version = "1", features = ["derive"] }
serde_json = "1"
tokio = { version = "1", features = ["full"] }
futures = "0.3"
tracing = "0.1"
arc-swap = "1"
dashmap = "6"
