[package]
name = "praxeum_core"
version = "0.1.0"
edition = "2021"
publish = false

[dependencies]
serde = { version = "1", features = ["derive"] }
serde_json = "1"
toml = "*"
thiserror = "*"
clap = { version = "4", features = ["derive"] }
crossterm = "*"
inquire = "*"
owo-colors = "*"
rand = "0.8"
