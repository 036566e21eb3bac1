[package]
name = "mcexport"
version = "1.0.0"
edition = "2021"
publish = false

[dependencies]
axum = "0.8"
clap = { version = "4", features = ["derive", "env"] }
hickory-resolver = "0.25"
prometheus-client = "*"
serde = { version = "1", features = ["derive"] }
serde_json = "1"
thiserror = "2"
tokio = { version = "1", features = ["full"] }
tower-http = { version = "0.6", features = ["trace"] }
tracing = { version = "0.1", features = ["log"] }
tracing-subscriber = "0.3"
