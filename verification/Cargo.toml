[package]
name = "nextdoor"
version = "0.1.0"
edition = "2021"
publish = false

[dependencies]
bytes = "=1.12.1"
tokio-tungstenite = "=0.24.0"
tokio = { version = "=1.53.2", features = ["full"] }
futures-util = "=0.3.34"
serde = "=1.0.229"
serde_json = "=1.0.151"
