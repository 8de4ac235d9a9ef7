[package]
name = "phpfmt"
version = "0.1.0"
edition = "2021"
publish = false

[dependencies]
glob-match = "*"
async-walkdir = "*"
futures = "*"
