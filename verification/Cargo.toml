[package]
name = "tachyon"
version = "0.1.0"
edition = "2021"
publish = false

[dependencies]
ahash = "0.8"
arc-swap = "1"
bytes = "1"
crossbeam-channel = "0.5"
dashmap = "6"
http-body-util = "0.1"
hyper = { version = "1", features = ["http1", "server"] }
hyper-util = { version = "0.1", features = ["tokio"] }
itoa = "1"
mimalloc = "0.1"
napi = { version = "3", features = ["napi4", "async"] }
napi-derive = "3"
parking_lot = "0.12"
rustc-hash = "2"
serde_json = "1"
simd-json = "*"
socket2 = "*"
thread_local = "1"
tokio = { version = "1", features = ["full"] }
