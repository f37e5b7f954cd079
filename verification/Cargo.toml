[package]
name = "fs_query"
version = "0.1.0"
edition = "2021"
publish = false

[dependencies]
tree-sitter = "*"
tree-sitter-cpp = "*"
tree-sitter-python = "*"
tree-sitter-javascript = "*"
tree-sitter-go = "*"
tree-sitter-rust = "*"
regex = "*"
anyhow = "*"
clap = { version = "*", features = ["derive"] }
glob = "*"
globwalk = "*"
rmcp = { version = "*", features = ["server", "macros", "transport-io"] }
schemars = "*"
serde = { version = "*", features = ["derive"] }
tokio = { version = "*", features = ["full"] }
tracing = "*"
tracing-subscriber = { version = "*", features = ["env-filter"] }
