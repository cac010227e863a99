[package]
name = "kvapi"
version = "0.1.0"
edition = "2021"
publish = false

[dependencies]
convert_case = "*"
syn = { version = "*", features = ["full"] }
proc-macro2 = "*"
quote = "*"
