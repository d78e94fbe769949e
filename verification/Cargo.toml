[package]
name = "metapool"
version = "2.0.0"
edition = "2021"
publish = false

[dependencies]
near-sdk = { version = "4.1.1", default-features = false, features = ["legacy"] }
