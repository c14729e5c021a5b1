[package]
name = "mcpr"
version = "0.1.0"
edition = "2021"
publish = false

[dependencies]
tungstenite = "*"
url = "*"
tiny_http = "*"
