[package]
name = "circom_backend"
version = "0.1.0"
edition = "2021"
publish = false

[dependencies]
ff = "0.13"
pasta_curves = "0.5"
wast = "*"
serde = { version = "1", features = ["derive"] }
serde_json = "1"
ansi_term = "*"
