[package]
name = "smart_server"
version = "0.1.0"
edition = "2021"
publish = false

[dependencies]
rust-argon2 = "*"
rand = "0.8"
chrono = "0.4"
diesel = { version = "2", features = ["sqlite"] }
dotenvy = "0.15"
jsonwebtoken = "9"
mailjet-rs = "*"
serde = { version = "1", features = ["derive"] }
serde_json = "1"
rocket = { version = "0.5", features = ["json"] }
