[package]
name = "post_lifecycle"
version = "0.1.0"
edition = "2021"
publish = false

[dependencies]
sled = "*"
infer = "*"
html-escape = "*"
chrono = "*"
uuid = { version = "*", features = ["v4"] }
