[package]
name = "nacelle"
version = "0.1.0"
edition = "2021"
publish = false

[dependencies]
url = "=2.5.8"
which = "=6.0.3"
sha2 = "=0.10.9"
hex = "=0.4.3"
base64 = "=0.22.1"
ed25519-dalek = { version = "=2.2.0", features = ["rand_core"] }
serde = { version = "=1.0.229", features = ["derive"] }
serde_json = "=1.0.154"
toml = "=0.8.23"
anyhow = "=1.0.104"
shell-words = "=1.1.1"
rand = "0.8"
