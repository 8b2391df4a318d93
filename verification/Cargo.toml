[package]
name = "hematita_da_lua"
version = "0.1.0"
edition = "2021"
publish = false

[dependencies]
itertools = "0.10"
