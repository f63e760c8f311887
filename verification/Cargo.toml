[package]
name = "jid_core"
version = "0.1.0"
edition = "2021"
publish = false

[dependencies]
unicode-segmentation = "*"
chrono = "*"
serde = { version = "*", features = ["derive"] }
toml = "*"
dirs = "*"
