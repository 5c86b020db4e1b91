[package]
name = "puzzle_game"
version = "0.1.0"
edition = "2021"
publish = false

[dependencies]
anyhow = "*"
serde = "*"
serde_derive = "*"
sewup = { version = "*", features = ["kv"] }
sewup-derive = "*"
