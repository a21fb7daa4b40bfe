[package]
name = "cloudmqtt"
version = "0.1.0"
edition = "2021"
publish = false

[dependencies]
tokio-util = { version = "0.7", features = ["codec", "compat"] }
tokio = { version = "1", features = ["io-util", "net", "rt", "macros"] }
futures = "0.3"
thiserror = "1"
tracing = "0.1"
clap = { version = "4", features = ["derive"] }
embassy-net = { version = "*", features = ["tcp", "proto-ipv4", "medium-ip"] }
embassy-time = "*"
defmt = "*"
