[package]
name = "apns"
version = "0.1.0"
edition = "2021"
publish = false

[dependencies]
rand = "*"
time = "*"
openssl = "*"
rustc-serialize = "*"
