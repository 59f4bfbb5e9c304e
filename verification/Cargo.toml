[package]
name = "influxdb"
version = "0.1.0"
edition = "2021"
publish = false

[dependencies]
serde_json = { version = "1", features = ["preserve_order"] }

[dev-dependencies]
chrono = "0.4"
