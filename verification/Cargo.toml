[package]
name = "a2a-rs"
version = "0.1.0"
edition = "2021"
publish = false

[dependencies]
sha2 = "=0.10.9"
hex = "=0.4.3"
ed25519-dalek = "=2.2.0"
serde = { version = "=1.0.229", features = ["derive"] }
serde_json = "=1.0.154"
chrono = "=0.4.45"
uuid = { version = "=1.29.0", features = ["v4"] }
thiserror = "=1.0.69"
tokio = { version = "=1.54.1", features = ["sync", "time", "rt", "macros"] }
axum = "=0.7.9"
tower-http = { version = "=0.6.11", features = ["cors", "compression-gzip"] }
nom = "7"
