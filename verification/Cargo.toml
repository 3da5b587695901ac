[package]
name = "noetiq_store"
version = "0.1.0"
edition = "2021"
publish = false

[dependencies]
aes-gcm = "0.10"
argon2 = "0.5"
uuid = { version = "1", features = ["v4"] }
chrono = "0.4"
dirs-next = "2"
fs_extra = "1"
