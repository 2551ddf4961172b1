[package]
name = "boa_script"
version = "0.1.0"
edition = "2021"
publish = false

[dependencies]
boa_ast = "=0.22.0"
boa_interner = "=0.22.0"
boa_parser = "=0.22.0"
rustc-hash = "=2.1.3"
