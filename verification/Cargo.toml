[package]
name = "mqtt_link"
version = "0.1.0"
edition = "2021"
publish = false

[dependencies]
rumqttc = { version = "0.24", default-features = false }
tokio = { version = "1", features = ["rt-multi-thread", "macros", "sync", "time"] }
serde = { version = "1", features = ["derive"] }
serde_json = "1"
anyhow = "1"
log = "0.4"
once_cell = "1"
event-listener = "5"
futures = "0.3"
bon = "*"
