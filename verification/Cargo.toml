[package]
name = "exchange"
version = "0.1.0"
edition = "2021"
publish = false

[dependencies]
serde = { version = "=1.0.229", features = ["derive"] }
serde_json = "=1.0.154"
url = "=2.5.8"
chrono = { version = "=0.4.45", default-features = false, features = ["std", "clock"] }
rust_decimal = "=1.43.0"
hex = "=0.4.3"
sha2 = "=0.10.9"
dashmap = "6"
