[package]
name = "flowsync"
version = "0.1.0"
edition = "2021"
publish = false

[dependencies]
serde = { version = "*", features = ["derive"] }
serde_json = "*"
chrono = "*"
uuid = { version = "*", features = ["v4"] }
reqwest = { version = "*", default-features = false, features = ["blocking", "json"] }
rusqlite = { version = "*", features = ["bundled"] }
