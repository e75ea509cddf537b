[package]
name = "scenesplit"
version = "0.1.0"
edition = "2021"
publish = false

[dependencies]
clap = { version = "4", features = ["derive"] }
dirs = "*"
image = "0.25"
indicatif = "*"
ndarray = "*"
opencv = "*"
ort = "2.0.0-rc"
serde = { version = "1", features = ["derive"] }
serde_json = "1"
ureq = "2"
