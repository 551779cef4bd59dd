[package]
name = "edge_config"
version = "0.1.0"
edition = "2021"
publish = false

[dependencies]
anyhow = "*"
serde = { version = "*", features = ["derive"] }
serde_json = "*"
enumset = "*"
num_enum = "*"
strum = "*"
strum_macros = "*"
