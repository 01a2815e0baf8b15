[package]
name = "sunix"
version = "0.1.0"
edition = "2021"
publish = false

[dependencies]
serde = { version = "1", features = ["derive"] }
serde_json = "1"
cairo-rs = { version = "*", features = ["pdf"] }
gtk4 = "*"
gtk4-layer-shell = "*"
