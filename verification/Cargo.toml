[package]
name = "insiculous_snake"
version = "0.1.0"
edition = "2021"
publish = false

[dependencies]
glam = "*"
log = "0.4"
wasm-bindgen = "0.2"
wasm-bindgen-futures = "0.4"
