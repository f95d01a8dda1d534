[package]
name = "axum_liveview"
version = "0.1.0"
edition = "2021"
publish = false

[dependencies]
serde_json = "1"
axum = { version = "*", features = ["ws"] }
tokio = { version = "*", features = ["macros", "rt", "sync"] }
tokio-stream = "*"
futures-util = "*"
uuid = "*"
tracing = "*"
