[package]
name = "simplex"
version = "0.1.0"
edition = "2021"
publish = false

[dependencies]
hex = "0.4"
metrics = "0.24"
log = "0.4"
