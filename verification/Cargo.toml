[package]
name = "as3_parser"
version = "0.1.0"
edition = "2021"
publish = false

[dependencies]
unicode-general-category = "*"
late_format = "*"
num-bigint = "*"
num-traits = "*"
conv = "*"
hydroper_source_text = "*"
file_paths = "*"
serde = { version = "1", features = ["derive"] }
serde_json = "1"
clap = { version = "4", features = ["derive"] }
lazy-regex = "*"
