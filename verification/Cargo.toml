[package]
name = "filmrust"
version = "0.1.0"
edition = "2021"
publish = false

[dependencies]
anyhow = "1"
clap = { version = "4", features = ["derive"] }
dirs = "*"
filmr = "0.13"
image = "0.25"
img-parts = "*"
serde = { version = "1", features = ["derive"] }
serde_json = "1"
