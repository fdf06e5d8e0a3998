[package]
name = "threshold_ecdsa"
version = "0.1.0"
edition = "2021"
publish = false

[dependencies]
cryptoxide = "*"
rand = "*"
serde = { version = "*", features = ["derive"] }
serde_json = "*"
