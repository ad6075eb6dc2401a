[package]
name = "tuf"
version = "0.1.0"
edition = "2021"
publish = false

[dependencies]
ring = "=0.17.14"
pem = "=4.0.0"
serde_json = "=1.0.151"
