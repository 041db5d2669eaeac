[package]
name = "awesometree"
version = "0.1.0"
edition = "2021"
publish = false

[dependencies]
hmac = "=0.12.1"
sha2 = "=0.10.9"
base64 = "=0.22.1"
rand = "=0.9.5"
chrono = { version = "=0.4.45", default-features = false, features = ["clock", "std"] }
uuid = { version = "=1.29.0", features = ["v4"] }
serde = { version = "=1.0.229", features = ["derive"] }
serde_json = "=1.0.154"
toml = "=0.8.23"
hostname = "=0.4.2"
clap = { version = "4", features = ["derive"] }
