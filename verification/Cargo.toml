[package]
name = "pwatch"
version = "0.1.0"
edition = "2021"
publish = false

[dependencies]
clap = { version = "=4.6.7", features = ["derive"] }
colored = "=3.1.1"
comfy-table = "=7.2.2"
crossterm = "=0.29.0"
dirs = "=7.0.0"
figlet-rs = "=0.1.5"
ratatui = "=0.30.2"
serde = { version = "=1.0.229", features = ["derive"] }
serde_json = "=1.0.154"
toml = "=1.1.8"
