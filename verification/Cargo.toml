[package]
name = "rustify"
version = "0.1.0"
edition = "2021"
publish = false

[dependencies]
base64 = "*"
chrono = "*"
rand = "*"
sha2 = "*"
url = "*"
