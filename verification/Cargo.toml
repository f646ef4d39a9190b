[package]
name = "ups_monitor"
version = "0.1.0"
edition = "2021"
publish = false

[dependencies]
clap = { version = "*", features = ["derive"] }
figment = { version = "*", features = ["toml"] }
hidapi = "*"
hostname = "*"
lettre = "*"
serde = { version = "*", features = ["derive"] }
