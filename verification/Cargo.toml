[package]
name = "big_slides"
version = "0.1.0"
edition = "2021"
publish = false

[dependencies]
anyhow = "1"
chrono = "0.4"
clap = { version = "4", features = ["derive"] }
comrak = { version = "0.18", default-features = false }
env_logger = "0.10"
glob = "0.3"
headless_chrome = "1"
image = "0.24"
lazy_static = "1"
log = "0.4"
notify = "6"
notify-debouncer-full = "0.3"
parking_lot = "0.12"
reqwest = { version = "0.11", features = ["blocking"] }
thiserror = "1"
tiny_http = "0.12"
tungstenite = "0.20"
uuid = { version = "1", features = ["v4"] }
zip = "0.6"
