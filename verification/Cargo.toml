[package]
name = "zenvi"
version = "0.1.0"
edition = "2021"
publish = false

[dependencies]
rmpv = "1"
unicode-width = "*"
anyhow = "1"
log = "0.4"
env_logger = "*"
parking_lot = "*"
tokio = { version = "1", features = ["rt-multi-thread", "process", "io-util", "sync", "time", "macros"] }
