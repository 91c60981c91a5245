[package]
name = "now_playing"
version = "0.1.0"
edition = "2021"
publish = false

[dependencies]
serde = { version = "=1.0.229", features = ["derive"] }
windows = { version = "0.58", features = ["Foundation", "Media_Control"] }
