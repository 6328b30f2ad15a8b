[package]
name = "webcodecs"
version = "0.1.0"
edition = "2021"
publish = false

[dependencies]
crossbeam = "0.8"
napi = "3"
napi-derive = "3"
tracing = "0.1"
