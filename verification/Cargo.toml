[package]
name = "chunk_loader"
version = "0.1.0"
edition = "2021"
publish = false

[dependencies]
anchor-lang = "=0.31.2"
solana-invoke = "0.4.0"
solana-security-txt = "=1.1.3"
