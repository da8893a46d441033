[package]
name = "lonlat"
version = "0.1.0"
edition = "2021"
publish = false

[dependencies]
arithmetic-sign = "*"
measurements = "*"
serde = { version = "1", features = ["derive"] }
serde_json = "1"
thiserror = "1"
