[package]
name = "media_catalog"
version = "0.1.0"
edition = "2021"
publish = false

[dependencies]
uuid = { version = "*", features = ["v4"] }
chrono = "*"
redb = "*"
serde = { version = "*", features = ["derive"] }
serde_json = "*"
toml = "*"
fs_extra = "*"
walkdir = "*"
encoding_rs = "*"
anyhow = "*"
