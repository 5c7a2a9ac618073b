[package]
name = "rc"
version = "0.1.0"
edition = "2021"
publish = false

[dependencies]
clap = { version = "=4.6.7", features = ["derive"] }
crossterm = "=0.28.1"
ratatui = "=0.29.0"
syntect = { version = "=5.3.0", default-features = false, features = ["default-fancy"] }
