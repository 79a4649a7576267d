[package]
name = "dose_core"
version = "0.1.0"
edition = "2021"
publish = false

[dependencies]
rand = "0.8"
serde = { version = "1", features = ["derive"] }
serde_json = "1"
bincode = "1"
chrono = "0.4"
clap = "2"
log = "0.4"
simplelog = "0.12"
toml_edit = "*"
