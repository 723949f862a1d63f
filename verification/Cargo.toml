[package]
name = "memex"
version = "0.1.0"
edition = "2021"
publish = false

[dependencies]
anyhow = "1"
rusqlite = { version = "0.32", features = ["bundled"] }
serde = { version = "1", features = ["derive"] }
serde_json = "1"
tantivy = "0.22"
tempfile = "3"
