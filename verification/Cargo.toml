[package]
name = "wgsl_lsp"
version = "0.1.0"
edition = "2021"
publish = false

[dependencies]
naga_oil = "=0.23.0"
naga = "=30.0.1"
lsp-types = "=0.95.1"
async-lsp = "=0.2.4"
ropey = "*"
serde_json = "*"
tokio = { version = "*", features = ["full"] }
tokio-util = { version = "*", features = ["compat"] }
tower = "*"
tracing = "*"
tracing-subscriber = "*"
walkdir = "*"
bitflags = "*"
