[package]
name = "zed_cl"
version = "0.1.0"
edition = "2021"
publish = false

[dependencies]
anyhow = "1"
lexpr = "0.2"
libc = "0.2"
regex = "1"
serde = { version = "1", features = ["derive"] }
serde_json = "1"
tokio = { version = "1", features = ["full"] }
tower-lsp = "0.20"
tracing = "0.1"
tracing-subscriber = { version = "0.3", features = ["env-filter"] }
which = "*"
zed_extension_api = "*"
