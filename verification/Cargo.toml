[package]
name = "chart_converter"
version = "0.1.0"
edition = "2021"
publish = false

[dependencies]
thiserror = "2"
wasm-bindgen = "0.2"
