[package]
name = "slight"
version = "0.1.0"
edition = "2021"
publish = false

[dependencies]
uuid = { version = "=1.29.1", features = ["v4"] }
semver = "=1.0.28"
url = "=2.5.8"
clap = "=4.6.7"
redis = "=1.8.1"
short-crypt = "1"
toml = "*"
rppal = "*"
