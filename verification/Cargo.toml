[package]
name = "naclbox"
version = "0.1.0"
edition = "2021"
publish = false

[dependencies]
dryoc = "*"
sodiumoxide = "0.2"
napi = "2"
napi-derive = "2"
