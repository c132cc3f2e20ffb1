[package]
name = "ift"
version = "0.4.0"
edition = "2021"
publish = false

[dependencies]
ipnet = "2"
regex = "1"
pnet = "*"
clap = "2"
failure = "0.1"
