[package]
name = "order_track"
version = "0.1.0"
edition = "2021"
publish = false

[dependencies]
validator = "0.16"
axum = "0.6"
tokio = { version = "1", features = ["macros", "rt-multi-thread", "net", "time"] }
serde = { version = "1", features = ["derive"] }
serde_json = "1"
