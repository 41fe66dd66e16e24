[package]
name = "todo_store"
version = "0.1.0"
edition = "2021"
publish = false

[dependencies]
ulid = "1"
chrono = "0.4"
axum = "0.6"
tokio = { version = "1", features = ["full"] }
redis = { version = "0.23", features = ["tokio-comp", "json"] }
serde = { version = "1", features = ["derive"] }
serde_json = "1"
