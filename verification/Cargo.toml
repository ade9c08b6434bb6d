[package]
name = "scifi"
version = "0.1.0"
edition = "2021"
publish = false

[dependencies]
gtk = "0.18"
serde = { version = "1", features = ["derive"] }
serde_json = "1"
tao = "*"
wry = { version = "*", features = ["devtools"] }
