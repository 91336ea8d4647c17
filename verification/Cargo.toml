[package]
name = "cxx2flow"
version = "0.6.2"
edition = "2021"
publish = false

[dependencies]
petgraph = "*"
tree-sitter = "*"
tree-sitter-cpp = "*"
clap = { version = "*", features = ["derive"] }
miette = { version = "*", features = ["fancy"] }
thiserror = "*"
itertools = "*"
colored = "*"
