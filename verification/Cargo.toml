[package]
name = "mavlink_core"
version = "0.1.0"
edition = "2021"
publish = false

[dependencies]
embedded-io = "*"
embedded-io-async = "*"
memchr = "2"
tokio = { version = "1", features = ["io-util"] }
