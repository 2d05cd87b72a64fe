[package]
name = "restful_cache"
version = "0.1.0"
edition = "2021"
publish = false

[dependencies]
anyhow = "1"
log = "0.4"
reqwest = { version = "0.12", default-features = false }
tokio = { version = "1", features = ["rt", "sync", "time"] }
