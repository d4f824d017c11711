[package]
name = "knotx_gateway"
version = "0.1.0"
edition = "2021"
publish = false

[dependencies]
casper-types = { version = "=7.0.0", features = ["std"] }

[dev-dependencies]
blake2 = "=0.11.0"
k256 = "=0.14.0"
