[package]
name = "txn_verifier"
version = "0.1.0"
edition = "2021"
publish = false

[dependencies]
tiny-keccak = { version = "*", features = ["keccak"] }

[dev-dependencies]
rlp = "*"
