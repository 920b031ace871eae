[package]
name = "hyper_mcp"
version = "0.1.0"
edition = "2021"
publish = false

[dependencies]
sha2 = "*"
hex = "*"
serde = { version = "*", features = ["derive"] }
serde_json = "*"
anyhow = "*"
dirs = "*"
reqwest = { version = "*", default-features = false, features = ["blocking"] }
extism = "*"
