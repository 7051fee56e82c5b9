[package]
name = "cookie_session"
version = "0.1.0"
edition = "2021"
publish = false

[dependencies]
cookie = { version = "*", features = ["secure"] }
serde_json = "*"
