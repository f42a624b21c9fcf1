[package]
name = "polaris_auth"
version = "0.1.0"
edition = "2021"
publish = false

[dependencies]
branca = "0.10"
pbkdf2 = { version = "0.12", features = ["simple"] }
rand = "0.8"
serde = { version = "1", features = ["derive"] }
serde_json = "1"
