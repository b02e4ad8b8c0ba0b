[package]
name = "encrypted_zip"
version = "0.1.0"
edition = "2021"
publish = false

[dependencies]
flate2 = "1"
wasm-bindgen = "0.2"
