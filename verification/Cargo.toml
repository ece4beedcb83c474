[package]
name = "paste_service"
version = "0.1.0"
edition = "2021"
publish = false

[dependencies]
anyhow = "1"
axum = "0.8"
rand = "0.9"
rust-ini = "*"
tokio = { version = "1", features = ["full"] }
url = "2"
