[package]
name = "worker_handlers"
version = "0.1.0"
edition = "2021"
publish = false

[dependencies]
fastcrypto = "0.1.11"
async-trait = "0.1"
tracing = "0.1"
