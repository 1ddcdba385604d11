[package]
name = "mirror_store"
version = "0.1.0"
edition = "2021"
publish = false

[dependencies]
dirs = "5"
log = "0.4"
rusqlite = { version = "0.32", features = ["bundled"] }
serde_json = "1"
