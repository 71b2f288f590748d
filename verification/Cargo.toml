[package]
name = "oxc_formatter"
version = "0.1.0"
edition = "2021"
publish = false

[dependencies]
oxc_allocator = "0.80"
oxc_ast = "0.80"
oxc_ast_visit = "0.80"
oxc_diagnostics = "0.80"
oxc_ecmascript = "0.80"
oxc_parser = "0.80"
oxc_regular_expression = "0.80"
oxc_semantic = "0.80"
oxc_span = "0.80"
oxc_syntax = "0.80"
rustc-hash = "=2.1.3"
serde_json = "=1.0.154"
