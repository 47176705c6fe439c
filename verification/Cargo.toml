[package]
name = "cargo_bitbake"
version = "0.1.0"
edition = "2021"
publish = false

[dependencies]
itertools = "*"
md5 = "*"
