[package]
name = "atlantic_sdk"
version = "0.1.0"
edition = "2021"
publish = false

[dependencies]
reqwest = { version = "*", default-features = false, features = ["multipart"] }
tokio = { version = "*", features = ["rt-multi-thread", "macros", "time"] }
clap = { version = "*", features = ["derive", "env"] }
tracing = "*"
tracing-subscriber = "*"
thiserror = "*"
url = "*"
