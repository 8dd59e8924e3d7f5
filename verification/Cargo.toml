[package]
name = "rust_mqtt_client_tui"
version = "0.1.0"
edition = "2021"
publish = false

[dependencies]
anyhow = "1"
chrono = "0.4"
crossterm = "0.28"
ratatui = "0.29"
rumqttc = { version = "0.24", default-features = false, features = ["websocket"] }
serde_json = "1"
tokio = { version = "1", features = ["rt-multi-thread", "sync", "macros"] }
uuid = { version = "1", features = ["v4"] }
