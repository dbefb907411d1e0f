[package]
name = "suisei-core"
version = "0.1.0"
edition = "2021"
publish = false

[dependencies]
unicode-width = "=0.2.3"
serde_json = "=1.0.154"
image = "=0.25.10"
tree-sitter = "=0.27.1"
tree-sitter-bash = "*"
tree-sitter-c = "*"
tree-sitter-c-sharp = "*"
tree-sitter-cmake = "*"
tree-sitter-cpp = "*"
tree-sitter-css = "*"
tree-sitter-dart = "*"
tree-sitter-elixir = "*"
tree-sitter-go = "*"
tree-sitter-html = "*"
tree-sitter-java = "*"
tree-sitter-javascript = "*"
tree-sitter-json = "*"
tree-sitter-lua = "*"
tree-sitter-md = "*"
tree-sitter-objc = "*"
tree-sitter-php = "*"
tree-sitter-python = "*"
tree-sitter-ruby = "*"
tree-sitter-rust = "*"
tree-sitter-swift = "*"
tree-sitter-toml-ng = "*"
tree-sitter-typescript = "*"
tree-sitter-xml = "*"
tree-sitter-yaml = "*"
tree-sitter-zig = "*"
