[package]
name = "hyper_slate"
version = "0.1.0"
edition = "2021"
publish = false

[dependencies]
sha2 = "0.10"
hmac = "0.12"
hkdf = "0.12"
hex = "0.4"
serde_json = "1"
zeroize = "1"
serde = { version = "1", features = ["derive"] }
clap = { version = "4", features = ["derive"] }
