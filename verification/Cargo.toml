[package]
name = "blescan"
version = "0.1.0"
edition = "2021"
publish = false

[dependencies]
btleplug = "*"
futures = "*"
serde = { version = "*", features = ["derive"] }
