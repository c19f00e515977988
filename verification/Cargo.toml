[package]
name = "runtime_call_model"
version = "0.1.0"
edition = "2021"
publish = false

[dependencies]
parity-scale-codec = "=3.7.5"
subxt-metadata = "=0.44.3"
frame-metadata = "=23.0.1"
scale-info = "=2.11.6"
darling = "=0.20.11"
proc-macro2 = "=1.0.107"
quote = "=1.0.47"
syn = { version = "=2.0.119", features = ["full"] }
