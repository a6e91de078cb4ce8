[package]
name = "ntree"
version = "0.1.0"
edition = "2021"
publish = false

[dependencies]
serde = { version = "=1.0.229", features = ["derive"] }
serde_json = "=1.0.154"
tree-sitter = "=0.27.1"
jwalk = "=0.9.0"
regex = "=1.13.1"
