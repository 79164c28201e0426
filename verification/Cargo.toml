[package]
name = "validator_network"
version = "0.1.0"
edition = "2021"
publish = false

[dependencies]
futures = "0.3"
tokio = { version = "1", features = ["io-util", "macros", "rt", "sync", "time"] }
