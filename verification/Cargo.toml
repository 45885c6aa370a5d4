[package]
name = "scarf"
version = "0.1.0"
edition = "2021"
publish = false

[dependencies]
redb = "*"
serde = { version = "*", features = ["derive"] }
uuid = "*"
