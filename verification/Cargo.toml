[package]
name = "gbc"
version = "0.1.0"
edition = "2021"
publish = false

[dependencies]
sdl2 = "0.37"
serde = { version = "1", features = ["derive"] }
serde_json = "1"
thiserror = "2"
