[package]
name = "npcterm39"
version = "0.1.0"
edition = "2021"
publish = false

[dependencies]
unicode-width = "*"
vte = "*"
serde = { version = "*", features = ["derive"] }
serde_json = "*"
chrono = "*"
