[package]
name = "async-language-server"
version = "0.0.0"
edition = "2021"
publish = false

[dependencies]
async-lsp = "=0.2.4"
serde_json = "=1.0.154"
tree-sitter = "=0.25.10"
ignore = "=0.4.34"
tokio = { version = "=1.54.1", features = ["rt", "net", "io-std", "io-util", "macros"] }
futures = "=0.3.34"
ropey = "=1.6.1"
tower = { version = "0.5", default-features = false }

[dev-dependencies]
tree-sitter-json = "=0.24.8"
