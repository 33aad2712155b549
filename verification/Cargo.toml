[package]
name = "hoditor"
version = "0.1.0"
edition = "2021"
publish = false

[dependencies]
anyhow = "1"
chrono = "0.4"
crossterm = "*"
syntect = { version = "5", default-features = false, features = ["default-fancy"] }
