[package]
name = "ashlang_spartan"
version = "0.1.0"
edition = "2021"
publish = false

[dependencies]
anyhow = "=1.0.104"
curve25519-dalek = "=4.1.3"
merlin = "=3.0.0"
scalarff = { version = "=0.8.1", features = ["curve25519"] }
spartan = "=0.9.0"
