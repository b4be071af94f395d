[package]
name = "router_telemetry"
version = "0.1.0"
edition = "2021"
publish = false

[dependencies]
serde_json = "1"
rand = "0.8"
url = "2"
humantime = "2"
http = "0.2"
serde = { version = "1", features = ["derive"] }
opentelemetry = "0.17"
