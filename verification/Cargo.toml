[package]
name = "oa42-core"
version = "0.1.0"
edition = "2021"
publish = false

[dependencies]
jns42-core = "*"
serde_json = "1"
serde_yaml = "0.9"
wasm-bindgen = "0.2"
