[package]
name = "stremio-core"
version = "0.1.0"
edition = "2021"
publish = false

[dependencies]
flate2 = "1"
serde = { version = "1", features = ["derive"] }
serde_with = "3"
chrono = { version = "0.4", default-features = false, features = ["std", "serde"] }
url = { version = "2", features = ["serde"] }
derive_more = "0.99"
futures = "0.1"
