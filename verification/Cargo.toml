[package]
name = "game_launcher"
version = "0.1.0"
edition = "2021"
publish = false

[dependencies]
tiny_http = "=0.12.0"
serde = { version = "1", features = ["derive"] }
