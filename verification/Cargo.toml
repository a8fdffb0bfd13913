[package]
name = "maint_report"
version = "0.1.0"
edition = "2021"
publish = false

[dependencies]
better-logger = { version = "=2.3.4", features = ["native"] }
chrono = "=0.4.45"
serde = { version = "=1.0.229", features = ["derive"] }
toml = "=1.1.7"
