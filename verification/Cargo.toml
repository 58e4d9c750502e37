[package]
name = "cachekit"
version = "0.1.0"
edition = "2021"
publish = false

[dependencies]
redis = "0.25"
aes = "0.8"
cbc = { version = "0.1", features = ["alloc"] }
base64 = "0.22"
bcrypt = "0.15"
rand = "0.8"
