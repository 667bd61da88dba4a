[package]
name = "guardrails_core"
version = "0.1.0"
edition = "2021"
publish = false

[dependencies]
axum = { version = "=0.8.9", default-features = false, features = ["json"] }
serde = { version = "=1.0.229", features = ["derive"] }
tokio = { version = "=1.54.1", features = ["sync"] }
tonic = { version = "=0.13.1", default-features = false }
tracing = "=0.1.44"
