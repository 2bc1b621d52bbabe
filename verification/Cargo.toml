[package]
name = "serial_submitter"
version = "0.1.0"
edition = "2021"
publish = false

[dependencies]
prometheus = { version = "0.13", default-features = false }
tokio = { version = "1", features = ["rt", "sync", "time"] }
futures = "0.3"
futures-util = "0.3"
tracing = "0.1"
derive-new = "0.5"
