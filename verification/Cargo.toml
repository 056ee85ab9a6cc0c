[package]
name = "wasminspect_vm"
version = "0.1.0"
edition = "2021"
publish = false

[dependencies]
anyhow = "1"
parity-wasm = "0.41"
wasmparser = "0.51"
wast = "5"
