[package]
name = "collect_with"
version = "0.1.0"
edition = "2021"
publish = false

[dependencies]
ahash = "0.8"
indexmap = "2"
