[package]
name = "pull_diagnostics"
version = "0.1.0"
edition = "2021"
publish = false

[dependencies]
serde_json = "*"
lsp-types = "*"
tokio = { version = "*", features = ["rt", "time", "macros", "sync"] }
