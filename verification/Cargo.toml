[package]
name = "transform_core"
version = "0.1.0"
edition = "2021"
publish = false

[dependencies]
rspack_error = "*"
swc_core = { version = "*", features = ["ecma_ast", "ecma_visit"] }
