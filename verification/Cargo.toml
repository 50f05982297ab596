[package]
name = "tls_2pc_core"
version = "0.1.0"
edition = "2021"
publish = false

[dependencies]
async-trait = "0.1"
futures = "0.3"
ghash = "0.5"
tracing = "0.1"
