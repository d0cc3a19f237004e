[package]
name = "chat_moderation"
version = "0.1.0"
edition = "2021"
publish = false

[dependencies]
anyhow = "1"
reqwest = { version = "0.11", default-features = false, features = ["json", "rustls-tls"] }
serde = { version = "1", features = ["derive"] }
serde_with = "3"
serenity = { version = "0.12", default-features = false, features = ["builder", "cache", "client", "gateway", "model", "http", "utils", "rustls_backend"] }
shuttle-runtime = "*"
shuttle-serenity = "*"
tokio = { version = "1", features = ["sync"] }
tracing = "0.1"
