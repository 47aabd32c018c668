[package]
name = "qdrant-vector"
version = "0.1.0"
edition = "2021"
publish = false

[dependencies]
anyhow = "=1.0.104"
axum = "=0.8.9"
base64 = "=0.22.1"
dotenvy = "=0.15.7"
fastembed = { version = "=4.9.0", default-features = false, features = ["ort-load-dynamic", "hf-hub-native-tls"] }
image = "=0.25.10"
ndarray = "=0.16.1"
ort = { version = "=2.0.0-rc.9", default-features = false, features = ["ndarray", "half", "load-dynamic"] }
ort-sys = { version = "=2.0.0-rc.9", default-features = false }
qdrant-client = "=1.20.0"
regex = "=1.13.1"
reqwest = "=0.12.28"
serde = { version = "=1.0.229", features = ["derive"] }
serde_json = "=1.0.154"
tokio = { version = "=1.54.1", features = ["full"] }
tracing = "=0.1.44"
tracing-subscriber = { version = "=0.3.23", features = ["env-filter"] }
