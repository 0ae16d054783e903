[package]
name = "hashassin_core"
version = "0.1.0"
edition = "2021"
publish = false

[dependencies]
md-5 = "*"
sha2 = "*"
scrypt = "*"
hex = "*"
rand = "0.8"
clap = { version = "4", features = ["derive"] }
tracing = "*"
tracing-subscriber = "*"
