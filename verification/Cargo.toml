[package]
name = "native_bridge"
version = "0.1.0"
edition = "2021"
publish = false

[dependencies]
napi = { version = "2", default-features = false, features = ["napi4"] }
napi-derive = "2"
num_cpus = "1"
