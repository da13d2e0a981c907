[package]
name = "avg32"
version = "0.1.0"
edition = "2021"
publish = false

[dependencies]
encoding_rs = "*"
serde = "*"
serde_derive = "*"
serde-lexpr = "*"
lexpr = "*"
clap = "2"
