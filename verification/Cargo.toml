[package]
name = "lsp_completion"
version = "0.1.0"
edition = "2021"
publish = false

[dependencies]
regex = "*"
lsp-types = "*"
url = "*"
