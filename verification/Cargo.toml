[package]
name = "raolv"
version = "0.1.0"
edition = "2021"
publish = false

[dependencies]
aws-lc-rs = "=1.19.0"
icu = "=2.4.0"
uuid = { version = "=1.29.0", features = ["v4"] }
argon2 = "=0.6.0"
pulldown-cmark = "=0.13.6"
base64 = "=0.22.1"
serde = { version = "=1.0.229", features = ["derive"] }
serde_json = "=1.0.154"
chrono = "=0.4.45"
dotenvy = "=0.15.7"
tokio = { version = "1", features = ["fs", "rt-multi-thread", "macros"] }
