[package]
name = "axdriver_aic8800"
version = "0.1.0"
edition = "2021"
publish = false

[dependencies]
aes = "0.8"
hmac = "0.12"
pbkdf2 = { version = "0.12", features = ["hmac"] }
sha1 = "0.10"
zeroize = "1"
