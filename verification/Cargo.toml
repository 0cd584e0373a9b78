[package]
name = "way2fa"
version = "0.1.0"
edition = "2021"
publish = false

[dependencies]
hmac = "0.12"
sha1 = "0.10"
data-encoding = "2"
csv = "1"
anyhow = "1"
dirs = "5"
ratatui = "0.28"
