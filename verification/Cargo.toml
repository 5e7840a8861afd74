[package]
name = "taskcrab"
version = "0.1.0"
edition = "2021"
publish = false

[dependencies]
chrono = "0.4"
iced = { version = "0.12", default-features = false }
serde = { version = "1", features = ["derive"] }
serde_json = "1"
