[package]
name = "solana_games"
version = "0.1.0"
edition = "2021"
publish = false

[dependencies]
anchor-lang = { version = "=0.30.1", features = ["init-if-needed"] }
tiny-keccak = { version = "=2.0.2", features = ["sha3"] }
hex = "=0.4.3"
