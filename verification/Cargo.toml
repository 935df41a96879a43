[package]
name = "lending"
version = "0.1.0"
edition = "2021"
publish = false

[dependencies]
sp-runtime = "=49.0.0"
substrate-fixed = "=0.6.0"
frame-support = "=49.0.0"
frame-system = "=49.0.0"
serde = { version = "=1.0.229", features = ["derive"] }
