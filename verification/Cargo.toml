[package]
name = "rust_sql"
version = "0.1.0"
edition = "2021"
publish = false

[dependencies]
base64 = "0.22"
hmac = "0.12"
pbkdf2 = "0.12"
rand = "0.9"
rsa = "0.9"
sha1 = "0.10"
sha2 = "0.10"
