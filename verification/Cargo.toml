[package]
name = "scale_signature_http"
version = "0.1.0"
edition = "2021"
publish = false

[dependencies]
polyglot_rs = "=1.1.4"
lazy_static = "=1.5.1"
scale_signature = "=0.2.11"
