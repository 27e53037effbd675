[package]
name = "wasm_loader"
version = "0.1.0"
edition = "2021"
publish = false

[dependencies]
emacs = "=0.23.0"
once_cell = "=1.21.4"
wasi-common = "=46.0.3"
wasmtime = "=46.0.3"
