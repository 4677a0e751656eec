[package]
name = "doskvol"
version = "0.1.0"
edition = "2021"
publish = false

[dependencies]
totp-rs = { version = "*", features = ["otpauth", "gen_secret", "qr"] }
nanoid = "*"
cookie = "*"
