[package]
name = "giterdone"
version = "0.1.0"
edition = "2021"
publish = false

[dependencies]
chrono = "0.4"
clap = { version = "4", features = ["derive"] }
dirs = "5"
ignore = "0.4"
serde = { version = "1", features = ["derive"] }
serde_json = "1"
