[package]
name = "ntscan"
version = "0.2.0"
edition = "2021"

[dependencies]
ansi_term = "0.12"
chrono = "0.4"
clap = { version = "4", features = ["derive"] }
crossterm = "0.28"
indicatif = "0.17"
memmap2 = "0.9"
rayon = "1"
regex = "1"
serde = { version = "1", features = ["derive"] }
serde_json = "1"
term_size = "0.3"
toml = "0.8"
tree-sitter = "0.24"
tree-sitter-c = "0.23"
tree-sitter-java = "0.23"
tree-sitter-javascript = "0.23"
tree-sitter-python = "0.23"
walkdir = "2"
