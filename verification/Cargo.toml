[package]
name = "magicblock_core_logic"
version = "0.1.0"
edition = "2021"
publish = false

[dependencies]
url = "2"
lru = "*"
memmap2 = "0.9"
solana-pubkey = "*"
