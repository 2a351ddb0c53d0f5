[package]
name = "downloader_core"
version = "0.1.0"
edition = "2021"
publish = false

[dependencies]
shlex = "*"
serde_json = "*"
serde = { version = "*", features = ["derive"] }
chrono = "*"
tokio-util = "*"
zip = { version = "*", default-features = false, features = ["deflate"] }
sevenz-rust = "*"
dirs = "*"
glob = "*"
