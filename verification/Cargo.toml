[package]
name = "dilok_did"
version = "0.1.0"
edition = "2021"
publish = false

[dependencies]
sha2 = "0.10"
rocksdb = "*"
serde = { version = "1", features = ["derive"] }
serde_json = "1"
chrono = { version = "0.4", features = ["serde"] }
uuid = { version = "1", features = ["v4", "serde"] }
thiserror = "1"
axum = "0.7"
