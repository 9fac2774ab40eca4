[package]
name = "hypibole"
version = "0.1.0"
edition = "2021"
publish = false

[dependencies]
clap = { version = "4", features = ["derive"] }
form_urlencoded = "1"
hyper = { version = "0.14", features = ["full"] }
rppal = "*"
serde_json = "1"
tokio = { version = "1", features = ["full"] }
