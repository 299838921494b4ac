[package]
name = "ractor"
version = "0.1.0"
edition = "2021"
publish = false

[dependencies]
tokio = { version = "1", features = ["sync", "rt", "time", "macros"] }
dashmap = "6"
once_cell = "1"
tracing = "0.1"
