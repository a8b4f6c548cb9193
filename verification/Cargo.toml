[package]
name = "simple_network"
version = "0.1.0"
edition = "2021"
publish = false

[dependencies]
aead = "0.5"
anyhow = "1"
base64 = "0.22"
chacha20poly1305 = "0.10"
crossbeam-channel = "0.5"
getrandom = "0.2"
hkdf = "0.12"
postcard = { version = "1", features = ["use-std"] }
serde = { version = "1", features = ["derive"] }
sha2 = "0.10"
toml = "0.8"
tun = "0.6"
uuid = { version = "1", features = ["serde"] }
