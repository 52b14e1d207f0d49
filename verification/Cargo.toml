[package]
name = "upgate"
version = "0.1.0"
edition = "2021"
publish = false

[dependencies]
semver = "1"
pep440_rs = "0.7"
chrono = "0.4"
serde = { version = "1", features = ["derive"] }
serde_json = "1"
clap = { version = "4", features = ["derive"] }
crossterm = "0.28"
ratatui = "0.29"
unicode-width = "0.2"
