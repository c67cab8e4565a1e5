[package]
name = "codex_core"
version = "0.1.0"
edition = "2021"
publish = false

[dependencies]
anyhow = "1"
portable-pty = "0.9"
rand = "0.9"
serde = { version = "1", features = ["derive"] }
serde_json = "1"
tokio = { version = "1", features = ["fs", "io-util", "rt", "sync", "time"] }
tracing = "0.1"
tree-sitter = "0.25"
tree-sitter-bash = "0.25"
