[package]
name = "rust_blockchain"
version = "0.1.0"
edition = "2021"
publish = false

[dependencies]
bincode = "1"
serde = { version = "1", features = ["derive"] }
sha1 = { version = "0.6", features = ["std"] }
termion = "1"
time = "0.1"
