[package]
name = "avicore"
version = "0.1.0"
edition = "2021"
publish = false

[dependencies]
chrono = "0.4"
dirs = "*"
hex = "0.4"
hmac = "0.12"
sha2 = "0.10"
humantime = "2"
strfmt = "0.2"
titlecase = "*"
uuid = { version = "1", features = ["v4"] }
serde = { version = "1", features = ["derive"] }
serde_json = "1"
serde_yaml = "0.9"
tokio = { version = "1", features = ["sync", "rt", "macros"] }
inventory = "0.3"
console = "*"
indicatif = "*"
anyhow = "1"
