[package]
name = "tontuna"
version = "0.1.0"
edition = "2021"
publish = false

[dependencies]
anyhow = "1"
codespan-reporting = "0.11"
structopt = "0.3"
serde_json = "1"
lsp-types = "*"
lsp-server = "*"
