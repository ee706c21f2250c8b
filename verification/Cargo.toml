[package]
name = "zus"
version = "0.1.0"
edition = "2021"
publish = false

[dependencies]
axum = "0.8"
crossterm = "0.28"
hex = "0.4"
ratatui = "0.29"
rs_merkle = "1"
serde = { version = "1", features = ["derive"] }
uuid = { version = "1", features = ["v4"] }
