[package]
name = "duvua_core"
version = "0.1.0"
edition = "2021"
publish = false

[dependencies]
bson = "2"
chrono = "0.4"
nanoid = "0.4"
