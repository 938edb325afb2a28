[package]
name = "solo_machine"
version = "0.1.0"
edition = "2021"
publish = false

[dependencies]
k256 = "0.13"
ed25519-dalek = "2"
