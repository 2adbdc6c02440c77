[package]
name = "aa-minimize-wasm"
version = "0.1.0"
edition = "2021"
publish = false

[dependencies]
wit-bindgen = "=0.51.0"
