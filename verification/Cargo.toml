[package]
name = "ens_resolvers"
version = "0.1.0"
edition = "2021"
publish = false

[dependencies]
ethers = { version = "2", default-features = false }
ethers-core = { version = "2", default-features = false }
ethers-ccip-read = { version = "0.1", default-features = false }
thiserror = "1"
tracing = { version = "0.1", default-features = false, features = ["attributes", "std"] }
