[package]
name = "wild_proxy"
version = "0.1.0"
edition = "2021"
publish = false

[dependencies]
anyhow = "1"
libwild = "*"
semver = "1"
tracing = "0.1"
