[package]
name = "bookchain"
version = "0.1.0"
edition = "2021"
publish = false

[dependencies]
chrono = "0.4"
md5 = "0.7"
sha2 = "0.10"
