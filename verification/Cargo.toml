[package]
name = "wrapper"
version = "0.1.0"
edition = "2021"
publish = false

[dependencies]
rand = "=0.7.3"
libc = "0.2"
memmap = "=0.7.0"
serde_json = "1"
merkletree = "=0.21.0"
filecoin-hashers = { version = "=1.1.0", default-features = false, features = ["poseidon", "sha256", "pairing"] }
storage-proofs = { version = "=6.0.0", default-features = false, features = ["pairing"] }
