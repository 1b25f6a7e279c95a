[package]
name = "mobydick"
version = "0.1.0"
edition = "2021"
publish = false

[dependencies]
serde = { version = "*", features = ["derive"] }
serde_json = "*"
dirs = "*"
workerpool = "*"
reqwest = { version = "*", default-features = false, features = ["blocking"] }
