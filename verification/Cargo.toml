[package]
name = "rune"
version = "0.1.0"
edition = "2021"
publish = false

[dependencies]
anyhow = "1"
crossterm = "0.28"
git2 = { version = "0.20", default-features = false }
ratatui = "0.29"
syntect = { version = "5", default-features = false, features = ["default-fancy"] }
