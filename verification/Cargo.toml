[package]
name = "skyweb"
version = "0.1.0"
edition = "2021"
publish = false

[dependencies]
atrium-api = "*"
atrium-xrpc-client = "*"
fjadra = "*"
tokio = { version = "*", features = ["rt-multi-thread", "macros"] }
