[package]
name = "tracing_gcp"
version = "0.1.0"
edition = "2021"
publish = false

[dependencies]
chrono = "*"
tracing = "*"
tracing-subscriber = "*"

[dev-dependencies]
serde_json = "*"
