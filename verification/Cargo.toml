[package]
name = "dungeon_core"
version = "0.1.0"
edition = "2021"
publish = false

[dependencies]
rltk = { version = "=0.8.7", default-features = false, features = ["crossterm"] }
serde = { version = "=1.0.229", features = ["derive"] }
serde_json = "=1.0.151"
