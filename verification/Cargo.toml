[package]
name = "due"
version = "0.1.0"
edition = "2021"
publish = false

[dependencies]
chrono = { version = "=0.4.45", features = ["serde"] }
serde = { version = "=1.0.229", features = ["derive"] }
toml = "=1.1.8"
dirs = "=7.0.0"
log = "=0.4.35"
fern = "=0.7.1"
notify-rust = "=4.18.2"
