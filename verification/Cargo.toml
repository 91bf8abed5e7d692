[package]
name = "nim_proxy"
version = "0.6.1"
edition = "2021"
publish = false

[dependencies]
axum = "0.8"
bytes = "1"
dotenvy = "0.15"
futures-util = { version = "0.3", default-features = false }
getrandom = "0.2"
metrics = "0.24"
metrics-exporter-prometheus = { version = "0.17", default-features = false }
reqwest = { version = "0.12", default-features = false, features = ["stream", "rustls-tls"] }
serde = { version = "1", features = ["derive"] }
serde_json = "1"
sha2 = "0.10"
tokio = { version = "1", features = ["full"] }
tokio-stream = "0.1"
tracing = "0.1"
tracing-subscriber = { version = "0.3", features = ["env-filter"] }
