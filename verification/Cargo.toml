[package]
name = "curtaurl_admin"
version = "0.1.0"
edition = "2021"
publish = false

[dependencies]
chrono = "=0.4.45"
dotenvy = "=0.15.7"
serde = { version = "=1.0.229", features = ["derive"] }
serde_json = "=1.0.151"
ureq = { version = "=2.12.1", features = ["json"] }
