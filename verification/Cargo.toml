[package]
name = "provider_registry"
version = "0.1.0"
edition = "2021"
publish = false

[dependencies]
casper-contract = { version = "=1.4.4", default-features = false, features = ["std"] }
casper-types = { version = "=1.5.0", default-features = false, features = ["std"] }
