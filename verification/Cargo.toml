[package]
name = "kalgan"
version = "0.1.0"
edition = "2021"
publish = false

[dependencies]
argon2 = "0.4"
rand = "0.8"
kalgan_config = "*"
kalgan_router = "*"
kalgan_i18n = "*"
kalgan_cache = "*"
uuid = { version = "1", features = ["v4"] }
chrono = "0.4"
log = "0.4"
