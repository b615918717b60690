[package]
name = "cytube_generator"
version = "0.1.0"
edition = "2021"
publish = false

[dependencies]
fixedstr = "*"
serde = { version = "1", features = ["derive"] }
serde_json = "1"
