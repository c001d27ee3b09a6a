[package]
name = "sms_webhook"
version = "0.1.0"
edition = "2021"
publish = false

[dependencies]
orion = "*"
actix-web = "*"
dotenvy = "*"
redis = { version = "*", features = ["tokio-comp", "connection-manager"] }
