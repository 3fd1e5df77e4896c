[package]
name = "anixrun"
version = "0.1.0"
edition = "2021"
publish = false

[dependencies]
nix-index = "=0.1.10"
regex = "=1.13.1"
abi_stable = "=0.11.3"
anyrun-plugin = "=0.1.0"
ron = "=0.12.2"
serde = { version = "=1.0.229", features = ["derive"] }

[dev-dependencies]
serde_bytes = "=0.11.19"
