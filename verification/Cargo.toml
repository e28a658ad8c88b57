[package]
name = "yielding-async-executor"
version = "0.9.0"
edition = "2021"
publish = false

[dependencies]
futures = "0.3"

[dev-dependencies]
tokio = { version = "1", features = ["rt", "sync"] }
