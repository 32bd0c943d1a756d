[package]
name = "textractor_bridge"
version = "0.1.0"
edition = "2021"
publish = false

[dependencies]
mime_guess = "2"
base64 = "0.22"
uuid = { version = "1", features = ["v4"] }
image = { version = "0.25", default-features = false, features = ["png", "jpeg"] }
serde = { version = "1", features = ["derive"] }
serde_json = "1"
toml = "0.8"
anyhow = "1"
thiserror = "2"
tracing = "0.1"
tracing-subscriber = { version = "0.3", features = ["env-filter"] }
parking_lot = "0.12"
tempfile = "3"
dirs = "5"
tokio = { version = "1", features = ["full"] }
axum = { version = "0.8", features = ["ws"] }
tower-http = { version = "0.6", features = ["cors", "fs", "trace"] }
futures-util = { version = "0.3", features = ["sink"] }
async-stream = "0.3"
