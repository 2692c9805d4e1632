[package]
name = "game_reader"
version = "0.1.0"
edition = "2021"
publish = false

[dependencies]
serde = { version = "*", features = ["derive"] }
serde-xml-rs = "*"
poreader = "*"
thiserror = "*"
