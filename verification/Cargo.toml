[package]
name = "rbudget"
version = "0.1.0"
edition = "2021"
publish = false

[dependencies]
rusqlite = { version = "*", features = ["bundled"] }
uuid = { version = "*", features = ["v4"] }
chrono = "*"
tui = "*"
crossterm = "*"
dirs = "*"
log = "*"
pretty_env_logger = "*"
