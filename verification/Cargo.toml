[package]
name = "zellij_remote"
version = "0.1.0"
edition = "2021"
publish = false

[dependencies]
anyhow = "1"
bytes = "1"
hmac = "0.12"
log = "0.4"
prost = "0.13"
rand = "0.8"
sha2 = "0.10"
tokio = { version = "1", features = ["rt-multi-thread", "macros", "io-util", "sync", "time"] }
tokio-util = "0.7"
wtransport = "*"
