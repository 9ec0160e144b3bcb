[package]
name = "auto_switch"
version = "0.1.0"
edition = "2021"
publish = false

[dependencies]
futures = "=0.3.34"
log = "=0.4.35"
serde = { version = "=1.0.229", features = ["derive"] }
serde_json = "=1.0.154"
tokio = { version = "=1.54.1", features = ["time"] }
uuid = "=1.29.0"
