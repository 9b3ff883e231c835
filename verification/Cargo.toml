[package]
name = "crc"
version = "0.1.0"
edition = "2021"
publish = false

[dependencies]
anyhow = "1"
clap = { version = "4", features = ["derive"] }
ctrlc = "3"
num_cpus = "1"
serde = { version = "1", features = ["derive"] }
toml = "0.8"
tree-sitter = "*"
