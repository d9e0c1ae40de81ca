[package]
name = "jeanne_core"
version = "0.1.0"
edition = "2021"
publish = false

[dependencies]
gray_matter = "0.2"
rusqlite = { version = "0.32", features = ["bundled"] }
serde = { version = "1", features = ["derive"] }
serde_json = "1"
notify = "6.1"
tokio = { version = "1.43", features = ["full"] }
chrono = "0.4"
thiserror = "2"
tracing = "0.1"

[dev-dependencies]
tempfile = "3"
