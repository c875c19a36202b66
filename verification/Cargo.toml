[package]
name = "code_editor_core"
version = "0.1.0"
edition = "2021"
publish = false

[dependencies]
ropey = { version = "1", default-features = false }
tree-sitter-highlight = "*"
tree-sitter-cpp = "*"
tree-sitter-java = "*"
tree-sitter-javascript = "*"
tree-sitter-ocaml = "*"
tree-sitter-python = "*"
tree-sitter-rust = "*"
tree-sitter-typescript = "*"
