[package]
name = "fervid"
version = "0.1.0"
edition = "2021"
publish = false

[dependencies]
percent-encoding = "=2.3.2"
regex = "=1.13.1"
swc_core = { version = "=83.0.0", features = ["common", "ecma_ast", "ecma_visit", "ecma_parser", "ecma_codegen"] }
url = "=2.5.8"
