[package]
name = "opentelemetry_application_insights"
version = "0.1.0"
edition = "2021"
publish = false

[dependencies]
reqwest = { version = "*", default-features = false, features = ["blocking"] }
opentelemetry = "*"
opentelemetry_sdk = "*"

[dev-dependencies]
serde_json = "*"
