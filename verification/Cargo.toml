[package]
name = "cdrs_core"
version = "0.1.0"
edition = "2021"
publish = false

[dependencies]
snap = "*"
lz4_flex = { version = "*", default-features = false, features = ["std", "safe-encode", "safe-decode"] }
tokio = { version = "*", features = ["rt", "rt-multi-thread", "net", "sync", "io-util", "time", "macros"] }
rustls = { version = "*", default-features = false, features = ["ring", "std"] }
