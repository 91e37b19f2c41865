[package]
name = "wireguard_core"
version = "0.1.0"
edition = "2021"
publish = false

[dependencies]
x25519-dalek = "*"
chacha20poly1305 = "*"
blake2 = "*"
rand = "*"
