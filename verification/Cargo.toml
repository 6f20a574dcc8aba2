[package]
name = "rust_banking"
version = "0.1.0"
edition = "2021"
publish = false

[dependencies]
sha2 = "0.10"
hex = "0.4"
chrono = "0.4"
rusqlite = { version = "0.31", features = ["bundled"] }
anyhow = "1"
