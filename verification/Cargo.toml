[package]
name = "serial_core"
version = "0.1.0"
edition = "2021"
publish = false

[dependencies]
tokio = { version = "1", features = ["rt-multi-thread", "sync", "io-util", "time", "macros", "io-std"] }
tokio-serial = "5"
csv = "1"
