[package]
name = "chat_core"
version = "0.1.0"
edition = "2021"
publish = false

[dependencies]
sha256 = "*"
uuid = { version = "1", features = ["v4"] }
chrono = "*"
