[package]
name = "ical_filter"
version = "0.1.0"
edition = "2021"
publish = false

[dependencies]
regex = "=1.13.1"
chrono = { version = "=0.4.45", features = ["serde"] }
chrono-tz = "=0.5.3"
ical = "=0.6.0"
ics = "=0.4.4"
serde = { version = "=1.0.229", features = ["derive"] }
serde_qs = "=0.5.2"
actix-web = { version = "=3.3.3", default-features = false }
actix-rt = "=1.1.1"
awc = { version = "=2.0.3", default-features = false }
bytes = "=0.5.6"
env_logger = "=0.7.1"
