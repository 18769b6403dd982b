[package]
name = "notion_ical"
version = "0.1.0"
edition = "2021"
publish = false

[dependencies]
ical = { version = "*", features = ["generator"] }
notion = "*"
chrono = "*"
anyhow = "*"
