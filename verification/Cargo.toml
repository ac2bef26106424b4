[package]
name = "spymux"
version = "0.1.0"
edition = "2021"
publish = false

[dependencies]
ansi-to-tui = "*"
anyhow = "*"
clap = { version = "*", features = ["derive"] }
ratatui = "*"
serde = { version = "*", features = ["derive"] }
unicode-width = "*"
