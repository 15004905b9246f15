[package]
name = "usdt"
version = "0.1.0"
edition = "2021"
publish = false

[dependencies]
quote = "1"
structopt = "0.3"
