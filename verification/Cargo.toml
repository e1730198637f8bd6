[package]
name = "fbx_direct"
version = "0.1.0"
edition = "2021"
publish = false

[dependencies]
flate2 = "1"
base64 = "0.13"
