[package]
name = "ladls"
version = "0.1.0"
edition = "2021"
publish = false

[dependencies]
chacha20poly1305 = "*"
hkdf = "*"
sha2 = "*"
codex = "0.1"
serde = { version = "*", features = ["derive"] }
serde_json = "*"
rand = "*"
