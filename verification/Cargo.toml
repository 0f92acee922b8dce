[package]
name = "ifnd"
version = "0.1.0"
edition = "2021"
publish = false

[dependencies]
crossterm = "0.19"
fuzzy-matcher = "0.3"
parselnk = "0.1"
