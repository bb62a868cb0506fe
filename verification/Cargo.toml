[package]
name = "mstodo"
version = "0.1.0"
edition = "2021"
publish = false

[dependencies]
unicode-width = "*"
serde_json = "*"
crossterm = "*"
toml_edit = "*"
chrono = { version = "*", default-features = false, features = ["std", "clock"] }
url = "*"
thiserror = "*"
