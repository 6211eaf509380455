[package]
name = "luars"
version = "0.1.0"
edition = "2021"
publish = false

[dependencies]
ahash = "0.8"
itoa = "1"
smol_str = "0.3"
