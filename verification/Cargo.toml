[package]
name = "nethernet"
version = "0.1.0"
edition = "2021"
publish = false

[dependencies]
aes = "0.8"
hmac = "0.12"
sha2 = "0.10"
hex = "0.4"
