[package]
name = "vodozemac"
version = "0.1.0"
edition = "2021"
publish = false

[dependencies]
x25519-dalek = { version = "2", features = ["static_secrets"] }
rand = "0.8"
hkdf = "0.12"
hmac = "0.12"
sha2 = "0.10"
serde = { version = "1", features = ["derive"] }
