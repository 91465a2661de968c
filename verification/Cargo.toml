[package]
name = "tlapix"
version = "0.1.0"
edition = "2021"
publish = false

[dependencies]
anyhow = "=1.0.104"
axum = "=0.7.9"
aya = "=0.13.1"
chrono = { version = "=0.4.45", features = ["serde"] }
lru = "=0.12.5"
opentelemetry = "=0.24.0"
opentelemetry-otlp = { version = "=0.17.0", features = ["metrics", "grpc-tonic"] }
opentelemetry_sdk = { version = "=0.24.1", features = ["metrics", "rt-tokio"] }
ort = { version = "=2.0.0-rc.10", default-features = false, features = ["std", "load-dynamic"] }
reqwest = { version = "=0.12.28", default-features = false, features = ["json", "rustls-tls"] }
rusqlite = { version = "=0.31.0", features = ["bundled"] }
serde = { version = "=1.0.229", features = ["derive"] }
serde_json = "=1.0.154"
sha2 = "=0.10.9"
thiserror = "=1.0.69"
tokio = { version = "=1.54.1", features = ["full"] }
tokio-util = "=0.7.20"
toml = "=0.8.23"
tonic = "=0.12.3"
tracing = "=0.1.44"
tracing-subscriber = { version = "=0.3.23", features = ["env-filter"] }
uuid = { version = "=1.29.0", features = ["v4"] }
x509-parser = "=0.16.0"
