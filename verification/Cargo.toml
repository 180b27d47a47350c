[package]
name = "cache_ro"
version = "0.2.0"
edition = "2021"
publish = false

[dependencies]
bincode = { version = "2", features = ["serde"] }
dashmap = "6"
lazy_static = "1"
serde = { version = "1", features = ["derive"] }
sha2 = "0.10"
