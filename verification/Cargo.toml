[package]
name = "salve"
version = "0.1.0"
edition = "2021"
publish = false

[dependencies]
proc-macro2 = "=1.0.107"
syn = "=1.0.109"
this-is-fine = "=0.0.1"

[dev-dependencies]
proc-macro2 = { version = "=1.0.107", features = ["span-locations"] }
