[package]
name = "mot"
version = "0.1.0"
edition = "2021"
publish = false

[dependencies]
unic-ucd-category = "*"
yaml-rust = "*"
dirs = "*"
