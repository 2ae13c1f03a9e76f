[package]
name = "gddb"
version = "0.1.0"
edition = "2021"
publish = false

[dependencies]
bincode = "1.3"
gdnative = "0.9"
hashbrown = "0.11"
serde = { version = "1", features = ["derive"] }
uuid = { version = "0.8", features = ["v4"] }
