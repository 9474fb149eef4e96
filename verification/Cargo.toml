[package]
name = "solid_jsx"
version = "0.1.0"
edition = "2021"
publish = false

[dependencies]
indexmap = "=2.14.2"
rustc-hash = "=2.1.3"
oxc_allocator = "=0.135.0"
oxc_ast = "=0.135.0"
oxc_codegen = "=0.135.0"
oxc_parser = "=0.135.0"
oxc_span = "=0.135.0"
oxc_syntax = "=0.135.0"
napi = "=3.16.1"
napi-derive = "=3.7.0"
