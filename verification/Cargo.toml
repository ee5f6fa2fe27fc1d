[package]
name = "file_resources"
version = "0.1.0"
edition = "2021"
publish = false

[dependencies]
mime = "=0.3.17"
mime_guess = "=2.0.5"
rc-u8-reader = { version = "=2.0.17", features = ["tokio"] }
rocket = "=0.5.2"
