[package]
name = "mtgo_notes"
version = "0.1.0"
edition = "2021"
publish = false

[dependencies]
sha2 = "=0.10.9"
getrandom = "=0.3.4"
unicode-normalization = "=0.1.26"
unicode-casefold = "*"
url = "=2.5.8"
argon2 = "=0.5.3"
chacha20poly1305 = "=0.10.1"
subtle = "=2.6.1"
base64 = "=0.22.1"
serde = { version = "=1.0.229", features = ["derive"] }
serde_json = "=1.0.154"
