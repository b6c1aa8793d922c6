[package]
name = "cdylib_build"
version = "0.1.0"
edition = "2021"
publish = false

[dependencies]
cargo_metadata = "*"
serde = "*"
serde_json = "*"
