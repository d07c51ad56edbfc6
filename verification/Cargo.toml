[package]
name = "cosmicc"
version = "0.1.0"
edition = "2021"
publish = false

[dependencies]
arcstr = "=1.2.0"
cranelift-codegen = "=0.135.8"
cranelift-frontend = "=0.135.8"
target-lexicon = "=0.13.5"
