[package]
name = "objc_lsp"
version = "0.1.0"
edition = "2021"
publish = false

[dependencies]
tree-sitter = "0.25"
tree-sitter-objc = "3"
streaming-iterator = "0.1"
lsp-types = "0.97"
lsp-server = "0.7"
serde = { version = "1", features = ["derive"] }
serde_json = "1"
anyhow = "1"
tracing = "0.1"
tracing-subscriber = { version = "0.3", features = ["env-filter"] }
clang-sys = { version = "1", features = ["runtime", "clang_10_0"] }
libc = "0.2"
rusqlite = { version = "*", features = ["bundled"] }
