[package]
name = "captcha_ocr"
version = "0.1.0"
edition = "2021"
publish = false

[dependencies]
base64 = "*"
serde_json = "*"
image = { version = "*", default-features = false, features = ["jpeg"] }
