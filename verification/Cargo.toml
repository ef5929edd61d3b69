[package]
name = "waveless_sql"
version = "0.1.0"
edition = "2021"
publish = false

[dependencies]
rand = "0.9"
regex = "1"
crc32fast = "1"
chrono = "0.4"
serde = { version = "1", features = ["derive"] }
serde_json = "1"
