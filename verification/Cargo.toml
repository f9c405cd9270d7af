[package]
name = "htms"
version = "0.1.0"
edition = "2021"
publish = false

[dependencies]
async-stream = "*"
bytes = "*"
futures-core = "*"
futures-util = "*"
axum = { version = "*", default-features = false }
