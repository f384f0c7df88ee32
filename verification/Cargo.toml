[package]
name = "defi"
version = "0.1.0"
edition = "2021"
publish = false

[dependencies]
num-bigint = "=0.4.8"
num-traits = "=0.2.19"
proc-macro2 = "1"
quote = "1"
syn = { version = "1", features = ["full"] }
