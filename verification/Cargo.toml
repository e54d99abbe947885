[package]
name = "mdq"
version = "0.1.0"
edition = "2021"
publish = false

[dependencies]
rust-stemmers = "*"
clap = { version = "*", features = ["derive"] }
walkdir = "*"
shellexpand = "*"
serde = { version = "*", features = ["derive"] }
serde_json = "*"
reqwest = { version = "*", default-features = false, features = ["blocking"] }
