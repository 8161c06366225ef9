[package]
name = "slack_log"
version = "0.1.0"
edition = "2021"
publish = false

[dependencies]
chrono = "0.4"
futures = "0.1"
hyper = "0.12"
hyper-tls = "0.3"
log = "0.3"
native-tls = "0.2"
serde = { version = "1", features = ["derive"] }
serde_json = "1"
serde_urlencoded = "0.5"
simplelog = "0.4"
term = "0.4"
tokio-core = "0.1"
websocket = "0.26"
