[package]
name = "memory_pipeline"
version = "0.1.0"
edition = "2021"
publish = false

[dependencies]
anyhow = "1.0"
chrono = "0.4"
rusqlite = { version = "0.37", features = ["bundled"] }
schemars = "1"
serde = { version = "1.0", features = ["derive"] }
serde_json = "1.0"
tokio = { version = "1", features = ["sync", "macros", "rt"] }
tracing = "0.1"
uuid = { version = "1", features = ["v4"] }
