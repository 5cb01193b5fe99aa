[package]
name = "auth_gateway"
version = "0.1.0"
edition = "2021"
publish = false

[dependencies]
hmac = "0.12"
sha2 = "0.10"
serde = { version = "1", features = ["derive"] }
serde_json = "1"
chrono = { version = "0.4", features = ["serde"] }
rocket = { version = "0.5", features = ["json", "secrets"] }
reqwest = { version = "0.11", default-features = false, features = ["json"] }
