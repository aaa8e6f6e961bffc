[package]
name = "newsletter"
version = "0.1.0"
edition = "2021"
publish = false

[dependencies]
validator = "*"
rand = "0.8"
argon2 = "0.5"
base64 = "0.22"
uuid = { version = "1", features = ["v4"] }
chrono = "0.4"
