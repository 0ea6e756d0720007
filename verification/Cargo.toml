[package]
name = "flox_app"
version = "0.1.0"
edition = "2021"
publish = false

[dependencies]
url = "2"
qrcode = { version = "*", default-features = false }
uuid = { version = "1", features = ["v4"] }
