[package]
name = "quern"
version = "0.1.0"
edition = "2021"
publish = false

[dependencies]
chrono = "=0.4.45"
clap = { version = "=4.6.7", features = ["derive"] }
regex = "=1.13.1"
regex-syntax = "=0.8.11"
serde = { version = "=1.0.229", features = ["derive"] }
serde_yaml = "=0.9.34"
tracing = "=0.1.44"
tracing-subscriber = { version = "=0.3.23", features = ["chrono"] }
uuid = { version = "=1.29.0", features = ["v4"] }
