[package]
name = "tiku"
version = "0.1.0"
edition = "2021"
publish = false

[dependencies]
md5 = "*"
chrono = "*"
serde = { version = "*", features = ["derive"] }
serde_json = "*"
sanitize-filename = "*"
