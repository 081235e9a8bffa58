[package]
name = "epaper_dashboard"
version = "0.1.0"
edition = "2021"
publish = false

[dependencies]
image = "*"
rusttype = "*"
chrono = "*"
chrono-tz = "*"
reqwest = { version = "*", default-features = false, features = ["blocking"] }
serde = { version = "*", features = ["derive"] }
serde_json = "*"
anyhow = "*"
epd-waveshare = "*"
