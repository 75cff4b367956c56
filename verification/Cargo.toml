[package]
name = "rustyai"
version = "0.1.0"
edition = "2021"
publish = false

[dependencies]
rand = "0.8"
regex = "1"
lazy_static = "1.4"
snafu = "0.7"
cpython = "0.7"
