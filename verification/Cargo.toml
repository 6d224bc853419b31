[package]
name = "pinned_bench"
version = "0.1.0"
edition = "2021"
publish = false

[dependencies]
flume = "*"
monoio = "*"
futures-util = "*"
