[package]
name = "omaruler"
version = "0.1.0"
edition = "2021"
publish = false

[dependencies]
gtk4 = { version = "*", features = ["v4_8"] }
gtk4-layer-shell = "*"
image = { version = "0.25", default-features = false, features = ["png"] }
serde_json = "1"
