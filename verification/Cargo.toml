[package]
name = "line-counter"
version = "0.1.0"
edition = "2021"
publish = false

[dependencies]
anyhow = "1"
chrono = { version = "0.4", features = ["serde"] }
clap = { version = "4", features = ["derive"] }
crossterm = "0.28"
csv = "1"
dirs = "5"
glob = "0.3"
ignore = "0.4"
indicatif = { version = "0.17", features = ["rayon"] }
ratatui = "0.29"
rayon = "1"
serde = { version = "1", features = ["derive"] }
serde_json = "1"
