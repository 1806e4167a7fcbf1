[package]
name = "gitup"
version = "0.1.0"
edition = "2021"
publish = false

[dependencies]
dirs = "*"
serde = { version = "*", features = ["derive"] }
toml = "*"
