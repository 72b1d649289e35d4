[package]
name = "seedle_parser"
version = "0.1.0"
edition = "2021"
publish = false

[dependencies]
cddl-cat = "*"
minicbor = "*"
serde = "*"
serde-big-array = "*"
heck = "*"
