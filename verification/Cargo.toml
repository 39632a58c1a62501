[package]
name = "asted"
version = "0.1.0"
edition = "2021"
publish = false

[dependencies]
tree-sitter = "0.20"
tree-sitter-typescript = "0.20"
anyhow = "1"
axum = "0.6"
clap = { version = "4", features = ["derive"] }
dashmap = "5"
once_cell = "1"
tokio = { version = "1", features = ["full"] }
url = "2"
