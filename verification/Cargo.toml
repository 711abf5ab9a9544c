[package]
name = "mimic_token_orchestrator"
version = "0.1.0"
edition = "2021"
publish = false

[dependencies]
clap = { version = "*", features = ["derive"] }
serde = { version = "*", features = ["derive"] }
serde_json = "*"
thiserror = "*"
tracing = "*"
tracing-subscriber = "*"
tracing-opentelemetry = "*"
opentelemetry = "*"
opentelemetry_sdk = "*"
