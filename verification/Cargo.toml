[package]
name = "externevm"
version = "0.8.0"
edition = "2021"
publish = false

[dependencies]
alloy-evm = { version = "*", default-features = false }
alloy-primitives = "1"
alloy-rlp = "0.3"
alloy-sol-types = "1"
futures = { version = "0.3", default-features = false, features = ["std"] }
rand = "0.8"
revm = { version = "*", default-features = false, features = ["std"] }
secp256k1 = { version = "0.30", features = ["recovery"] }
serde_json = "1"
tokio = { version = "1", features = ["sync", "rt-multi-thread"] }
x509-parser = "0.17"
