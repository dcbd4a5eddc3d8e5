[package]
name = "pit_codegen"
version = "0.1.0"
edition = "2021"
publish = false

[dependencies]
hex = "0.4"
pit-core = "*"
proc-macro2 = "1"
quote = "1"
syn = { version = "2", features = ["full"] }
