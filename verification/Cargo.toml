[package]
name = "agentype-runtime"
version = "0.1.3"
edition = "2021"
publish = false

[dependencies]
serde_json = "1"
fs4 = "0.13"
file-id = "0.2"
