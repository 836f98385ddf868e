[package]
name = "partstore"
version = "0.1.0"
edition = "2021"
publish = false

[dependencies]
tokio = { version = "*", features = ["fs", "io-util", "macros", "rt-multi-thread", "sync"] }
opendal = { version = "*", default-features = false, features = ["services-fs"] }
