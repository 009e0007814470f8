[package]
name = "japanki"
version = "0.1.0"
edition = "2021"
publish = false

[dependencies]
rand = "*"
clap = { version = "*", features = ["derive"] }
csv = "*"
dirs = "*"
inquire = "*"
serde = { version = "*", features = ["derive"] }
serde_yaml = "*"
tabled = "*"
