[package]
name = "inventory_lookahead"
version = "0.1.0"
edition = "2021"
publish = false

[dependencies]
statrs = "*"
