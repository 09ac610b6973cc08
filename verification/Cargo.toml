[package]
name = "e_rewriter"
version = "0.1.0"
edition = "2021"
publish = false

[dependencies]
egg = "*"
rand = "*"
num = "*"
