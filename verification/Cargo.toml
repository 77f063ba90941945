[package]
name = "hascan"
version = "0.1.0"
edition = "2021"
publish = false

[dependencies]
rusqlite = { version = "=0.41.1", features = ["fallible_uint", "bundled"] }
serde_json = "=1.0.154"
