[package]
name = "wdn"
version = "0.1.0"
edition = "2021"
publish = false

[dependencies]
itertools = "=0.15.0"
roxmltree = "=0.21.2"
resvg = { version = "=0.49.0", default-features = false }
syn = { version = "=2.0.119", features = ["full"] }
quote = "=1.0.47"
proc-macro2 = "=1.0.107"
image = { version = "=0.25.10", default-features = false, features = ["png"] }
rand = "*"
