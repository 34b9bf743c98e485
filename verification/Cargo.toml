[package]
name = "session_registry"
version = "0.1.0"
edition = "2021"
publish = false

[dependencies]
rand = "*"
rusqlite = { version = "*", features = ["bundled"] }
serde = { version = "*", features = ["derive"] }
