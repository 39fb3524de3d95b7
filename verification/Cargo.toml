[package]
name = "hub"
version = "0.1.0"
edition = "2021"
publish = false

[dependencies]
unicode-segmentation = "=1.13.3"
sha2 = "=0.10.9"
hex = "=0.4.3"
hmac = "=0.12.1"
base64 = "=0.13.1"
rand = "=0.8.8"
uuid = { version = "=1.29.0", features = ["v4"] }
constant_time_eq = "=0.3.1"
serde_json = "=1.0.154"
urlencoding = "=2.1.3"
chrono = { version = "=0.4.45", default-features = false, features = ["std", "clock"] }
serde = { version = "=1.0.229", features = ["derive"] }
anyhow = "=1.0.104"
thiserror = "=1.0.69"
argon2 = "0.5"
htmlescape = "0.3"
