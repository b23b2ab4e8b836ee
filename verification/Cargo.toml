[package]
name = "download_engine"
version = "0.1.0"
edition = "2021"
publish = false

[dependencies]
url = "*"
reqwest = { version = "*", default-features = false, features = ["stream"] }
tokio = { version = "*", features = ["rt-multi-thread", "macros", "sync", "time", "fs", "io-util"] }
futures = "*"
dirs = "*"
