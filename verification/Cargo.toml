[package]
name = "k2"
version = "0.1.0"
edition = "2021"
publish = false

[dependencies]
rand = "=0.9.5"
num-traits = "=0.2.19"
libloading = "=0.8.9"
regex = "1"
