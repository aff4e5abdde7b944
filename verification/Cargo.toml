[package]
name = "anvyl_compiler"
version = "0.1.0"
edition = "2021"
publish = false

[dependencies]
console = { version = "0.15", default-features = false }
