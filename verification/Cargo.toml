[package]
name = "consistency_harness"
version = "0.1.0"
edition = "2021"
publish = false

[dependencies]
rand = "0.8"
qdrant-client = "1"
tokio = { version = "1", features = ["full"] }
chrono = "0.4"
futures = "0.3"
