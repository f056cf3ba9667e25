[package]
name = "kreuzberg"
version = "0.1.0"
edition = "2021"
publish = false

[dependencies]
regex = "1"
serde_json = "1"
once_cell = "1"
async-trait = "0.1"
js-sys = "0.3"
wasm-bindgen = "0.2"
pdfium-render = "0.8"
epub = "2"
