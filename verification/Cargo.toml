[package]
name = "record_persist"
version = "0.1.0"
edition = "2021"
publish = false

[dependencies]
anyhow = "=1.0.104"
chrono = { version = "=0.4.45", features = ["serde"] }
clap = { version = "=4.6.7", features = ["derive"] }
compact_str = "=0.10.0"
futures = "=0.3.34"
parquet = { version = "=60.0.0", default-features = false, features = ["zstd"] }
rust_decimal = "=1.43.0"
rustls = "=0.23.46"
serde = { version = "=1.0.229", features = ["derive"] }
serde_json = "=1.0.154"
serde_yaml = "=0.9.34"
thiserror = "=2.0.21"
tokio = { version = "=1.54.1", features = ["full"] }
tokio-tungstenite = { version = "=0.30.0", features = ["rustls-tls-webpki-roots"] }
tracing = "=0.1.44"
tracing-subscriber = { version = "=0.3.23", features = ["env-filter"] }

[dev-dependencies]
bytes = "=1.12.1"
rand = "=0.8.8"
