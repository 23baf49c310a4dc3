[package]
name = "admin_backend"
version = "0.1.0"
edition = "2021"
publish = false

[dependencies]
serde = { version = "=1.0.229", features = ["derive"] }
serde_json = "=1.0.154"
chrono = "=0.4.45"
uuid = { version = "=1.29.0", features = ["v4"] }
sha2 = "=0.10.9"
hex = "=0.4.3"
base64 = "=0.22.1"
mime_guess = "=2.0.5"
reqwest = { version = "=0.12.28", default-features = false, features = ["json", "multipart"] }
sysinfo = "=0.40.1"
