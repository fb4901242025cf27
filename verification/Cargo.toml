[package]
name = "docsync"
version = "0.1.0"
edition = "2021"
publish = false

[dependencies]
urlencoding = "2"
axum = "0.8"
serde = { version = "1", features = ["derive"] }
uuid = { version = "1", features = ["serde", "v4"] }
tracing = "0.1"
ts-rs = "*"
