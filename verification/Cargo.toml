[package]
name = "procon"
version = "0.1.0"
edition = "2021"
publish = false

[dependencies]
clap = { version = "4", features = ["derive"] }
colored = "*"
path-clean = "*"
serde = { version = "1", features = ["derive"] }
serde_norway = "*"
systemctl = "*"
