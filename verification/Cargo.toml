[package]
name = "calgrid"
version = "0.1.0"
edition = "2021"
publish = false

[dependencies]
chrono = "=0.4.45"
icalendar = { version = "=0.17.14", features = ["chrono-tz"] }
walkdir = "=2.5.0"
ratatui = "=0.30.2"
