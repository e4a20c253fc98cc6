[package]
name = "cyber_note"
version = "0.1.0"
edition = "2021"
publish = false

[dependencies]
base32 = "0.4"
hmac = "0.12"
sha1 = "0.10"
sha2 = "0.10"
chrono = "0.4"
serde = { version = "1", features = ["derive"] }
serde_json = "1"
comfy-table = "7"
libc = "0.2"
reqwest = { version = "0.12", default-features = false, features = ["blocking", "json", "rustls-tls"] }
