[package]
name = "slayerfs"
version = "0.1.0"
edition = "2021"
publish = false

[dependencies]
dashmap = "6"
libc = "0.2"
tokio = { version = "1", features = ["rt", "sync"] }
tracing = "0.1"
