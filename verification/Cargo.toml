[package]
name = "lan_transmission"
version = "0.1.0"
edition = "2021"
publish = false

[dependencies]
chrono = "=0.4.45"
uuid = { version = "=1.29.0", features = ["v4"] }
gethostname = "=1.1.0"
if-addrs = "=0.15.0"
serde = { version = "=1.0.229", features = ["derive"] }
serde_json = "=1.0.154"
axum = { version = "=0.7.9", features = ["multipart"] }
tokio = { version = "=1.54.1", features = ["full"] }
tower-http = { version = "=0.7.1", features = ["cors"] }
reqwest = { version = "=0.13.5", default-features = false, features = ["json", "multipart"] }
rusqlite = { version = "=0.41.1", features = ["bundled", "fallible_uint"] }
walkdir = "=2.5.0"
