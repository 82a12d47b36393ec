[package]
name = "hadris_apfs"
version = "0.1.0"
edition = "2021"
publish = false

[dependencies]
aes = "*"
aes-kw = "*"
cipher = "*"
pbkdf2 = { version = "*", features = ["hmac"] }
sha2 = "*"
xts-mode = "*"
