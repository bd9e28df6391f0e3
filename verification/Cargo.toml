[package]
name = "codegen"
version = "0.1.0"
edition = "2021"
publish = false

[dependencies]
heck = "0.3"
syn = { version = "1", features = ["full"] }
walkdir = "2"
anyhow = "1"

[dev-dependencies]
serde = "1"
serde_yaml = "0.8"
