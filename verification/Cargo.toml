[package]
name = "estm"
version = "0.1.0"
edition = "2021"
publish = false

[dependencies]
serde = { version = "1", features = ["derive"] }
serde_json = "1"
rusqlite = "0.32"
directories = "6"
arboard = { version = "3", default-features = false }
