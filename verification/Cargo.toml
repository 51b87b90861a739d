[package]
name = "rasengan"
version = "0.1.0"
edition = "2021"
publish = false

[dependencies]
anyhow = "*"
rand = "*"
serde = { version = "*", features = ["derive"] }
serde_json = "*"
