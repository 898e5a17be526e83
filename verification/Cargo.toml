[package]
name = "shadowlearn"
version = "0.1.0"
edition = "2021"
publish = false

[dependencies]
regex = "1"
lru = "0.12"
serde = { version = "1", features = ["derive"] }
serde_json = "1"
chrono = "0.4"
uuid = { version = "1", features = ["v4"] }
thiserror = "1"
dirs = "5"
which = "*"
