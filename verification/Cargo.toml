[package]
name = "lazyssh"
version = "0.1.0"
edition = "2021"
publish = false

[dependencies]
clipboard = "0.5"
crossterm = "0.25"
dirs = "5"
serde = { version = "1", features = ["derive"] }
toml = "0.8"
tui = "0.19"
which = "4"
