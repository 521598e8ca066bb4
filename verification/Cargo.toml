[package]
name = "sasta"
version = "0.1.0"
edition = "2021"
publish = false

[dependencies]
cron = "=0.17.0"
chrono = "=0.4.45"
uuid = { version = "=1.27.0", features = ["v4", "serde"] }
serde = { version = "=1.0.229", features = ["derive"] }
serde_json = "=1.0.151"
tokio = { version = "=1.53.2", features = ["rt-multi-thread", "macros", "sync", "time", "net", "signal"] }
axum = { version = "=0.8.9", features = ["ws"] }
futures-util = "=0.3.34"
redis = { version = "=1.7.1", features = ["tokio-comp", "json"] }
