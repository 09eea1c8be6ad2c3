[package]
name = "newsletter"
version = "0.1.0"
edition = "2021"
publish = false

[dependencies]
validator = "0.16"
unicode-segmentation = "1"
rand = "0.8"
uuid = { version = "1", features = ["v4"] }
chrono = { version = "0.4", default-features = false, features = ["clock"] }
argon2 = "0.4"
config = "0.13"
serde = { version = "1", features = ["derive"] }
