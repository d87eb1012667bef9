[package]
name = "surreal_simple_querybuilder"
version = "0.9.0"
edition = "2021"
publish = false

[dependencies]
serde = { version = "1", features = ["derive"] }
serde_json = "1"
flatten-json-object = "*"
