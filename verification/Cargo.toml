[package]
name = "lint_directives"
version = "0.1.0"
edition = "2021"
publish = false

[dependencies]
syn = { version = "*", features = ["full", "visit"] }
proc-macro2 = { version = "*", features = ["span-locations"] }
parking_lot = "*"
