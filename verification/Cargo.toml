[package]
name = "dim"
version = "0.1.0"
edition = "2021"
publish = false

[dependencies]
crossterm = "0.28"
serde = { version = "1", features = ["derive"] }
toml = "0.8"
unicode-width = "0.2"
