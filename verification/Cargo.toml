[package]
name = "clearing_house"
version = "0.1.0"
edition = "2021"
publish = false

[dependencies]
aes-gcm-siv = "0.11"
generic-array = "0.14"
hex = "0.4"
hkdf = "0.12"
sha2 = "0.10"
rand = "0.8"
mongodb = "2"
futures = "0.3"
serde = { version = "1", features = ["derive"] }
chrono = "0.4"
anyhow = "1"
