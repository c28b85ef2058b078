[package]
name = "tarballin"
version = "0.1.0"
edition = "2021"
publish = false

[dependencies]
glob = "0.3"
tree-sitter = "0.20"
tree-sitter-rust = "0.20"
clap = { version = "4", features = ["derive"] }
crossbeam-channel = "0.5"
lsp-server = "0.7"
lsp-types = "0.95"
serde = { version = "1", features = ["derive"] }
serde_json = "1"
thiserror = "1"
tracing = "0.1"
tracing-subscriber = "0.3"
tempdir = "0.3"
cargo_toml = "0.19"
url = "2"
