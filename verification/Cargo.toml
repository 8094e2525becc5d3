[package]
name = "otlp_exporter"
version = "0.1.0"
edition = "2021"
publish = false

[dependencies]
chrono = "=0.4.45"
reqwest = { version = "=0.13.5", default-features = false, features = ["blocking", "json"] }
serde_json = "=1.0.151"
