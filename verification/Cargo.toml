[package]
name = "treasure_trove"
version = "0.1.0"
edition = "2021"
publish = false

[dependencies]
axum = "*"
ollama-rs = "*"
rusqlite = { version = "*", features = ["bundled"] }
serde = { version = "1", features = ["derive"] }
serde_json = "1"
tokio = { version = "1", features = ["full"] }
tower-http = { version = "*", features = ["fs"] }
