[package]
name = "transpiler"
version = "0.1.0"
edition = "2021"
publish = false

[dependencies]
rust-format = { version = "*", features = ["pretty_please"] }
swc_ecma_ast = "*"
anyhow = "*"
