[package]
name = "conduit"
version = "0.1.0"
edition = "2021"
publish = false

[dependencies]
slug = "=0.1.6"
rust-crypto = "=0.2.36"
jwt = "=0.16.0"
hmac = "=0.12.1"
sha2 = "=0.10.9"
regex = "=1.13.1"
serde = { version = "=1.0.229", features = ["derive"] }
serde_json = "=1.0.151"
chrono = "=0.4.45"
