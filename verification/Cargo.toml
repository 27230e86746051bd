[package]
name = "hypertune"
version = "0.1.0"
edition = "2021"
publish = false

[dependencies]
chrono = "*"
clap = { version = "*", features = ["derive"] }
csv = "*"
rand = "*"
serde = { version = "*", features = ["derive"] }
serde_json = "*"
tinyvec = "*"
tpe = "*"
