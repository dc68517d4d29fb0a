[package]
name = "fetch_core"
version = "0.1.0"
edition = "2021"
publish = false

[dependencies]
url = "*"
mime_guess = "*"
base64 = "*"
