[package]
name = "tracing_limit"
version = "0.1.0"
edition = "2021"
publish = false

[dependencies]
dashmap = "=6.2.1"
tracing-core = "=0.1.36"
tracing-subscriber = { version = "=0.3.23", default-features = false, features = ["registry", "std"] }

[dev-dependencies]
mock_instant = "=0.6.1"
