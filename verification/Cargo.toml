[package]
name = "cyberdev_sandbox"
version = "0.1.0"
edition = "2021"
publish = false

[dependencies]
base64 = "=0.21.7"
tokio = { version = "=1.53.2", features = ["full"] }
tokio-util = "=0.7.19"
reqwest = { version = "=0.11.27", default-features = false, features = ["json", "rustls-tls"] }
serde = { version = "=1.0.229", features = ["derive"] }
serde_json = "=1.0.151"
parking_lot = "=0.12.5"
chrono = { version = "=0.4.45", default-features = false, features = ["clock"] }
wasmer = "=4.3.7"
axum = "=0.6.20"

[dev-dependencies]
wat = "1"
tempfile = "=3.27.0"
