[package]
name = "cs_derive"
version = "0.1.0"
edition = "2021"
publish = false

[dependencies]
syn = { version = "=1.0.109", features = ["full"] }
proc-macro2 = "=1.0.107"
proc-macro-error = "=1.0.4"
quote = "=1.0.47"
