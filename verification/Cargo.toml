[package]
name = "sbe_codegen"
version = "0.1.0"
edition = "2021"
publish = false

[dependencies]
anyhow = "1"
clap = { version = "4", features = ["derive"] }
convert_case = "0.6"
genco = "0.17"
hard-xml = "1"
indoc = "2"
xml-include = "*"
