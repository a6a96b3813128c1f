[package]
name = "route_template"
version = "0.1.0"
edition = "2021"
publish = false

[dependencies]
devise = "0.4"
proc-macro2 = "1"
quote = "1"
