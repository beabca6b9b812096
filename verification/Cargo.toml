[package]
name = "taskman"
version = "0.1.0"
edition = "2021"
publish = false

[dependencies]
crossterm = "*"
dirs = "*"
serde = { version = "*", features = ["derive"] }
serde_json = "*"
