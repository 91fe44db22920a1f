[package]
name = "pagina"
version = "0.1.0"
edition = "2021"
publish = false

[dependencies]
syntect = { version = "5", default-features = false, features = ["default-fancy"] }
wasm-bindgen = "0.2"
yaml-rust = "0.4"
