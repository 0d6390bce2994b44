[package]
name = "drafly"
version = "0.1.0"
edition = "2021"
publish = false

[dependencies]
base64 = "0.22"
urlencoding = "2"
ammonia = "4"
html2text = "0.12"
serde_json = "1"
serde = { version = "1", features = ["derive"] }
jsonwebtoken = "9"
reqwest = { version = "0.12", default-features = false, features = ["blocking", "json"] }
uuid = { version = "1", features = ["v4"] }
