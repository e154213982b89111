[package]
name = "mchttp"
version = "0.1.0"
edition = "2021"
publish = false

[dependencies]
anyhow = "*"
tokio = { version = "*", features = ["net", "io-util", "rt-multi-thread", "macros", "time", "fs"] }
tokio-rustls = { version = "*", default-features = false, features = ["ring", "logging", "tls12"] }
urlencoding = "*"
