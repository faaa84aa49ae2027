[package]
name = "signal_webhook"
version = "0.1.0"
edition = "2021"
publish = false

[dependencies]
axum = "=0.7.9"
backoff = { version = "=0.4.0", features = ["tokio"] }
fancy-duration = "=0.9.2"
futures-util = "=0.3.34"
serde = { version = "=1.0.229", features = ["derive"] }
serde_json = "=1.0.154"
tokio = { version = "=1.54.1", features = ["fs", "io-util", "macros", "net", "rt", "signal", "sync", "time"] }
tokio-stream = "=0.1.19"
tokio-util = { version = "=0.7.20", features = ["rt"] }
uuid = "=1.29.0"
