[package]
name = "photo_engine"
version = "0.1.0"
edition = "2021"
publish = false

[dependencies]
uuid = { version = "1", features = ["v4"] }
image = { version = "0.25", default-features = false, features = ["png", "jpeg", "gif"] }
rayon = "1"
serde = { version = "1", features = ["derive"] }
serde_json = "1"
