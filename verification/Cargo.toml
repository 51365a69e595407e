[package]
name = "tracetime"
version = "0.1.0"
edition = "2021"
publish = false

[dependencies]
reqwest = { version = "0.12", features = ["blocking", "json"] }
rusqlite = { version = "*", features = ["bundled"] }
serde_json = "1"
