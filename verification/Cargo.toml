[package]
name = "adder_collator"
version = "0.1.0"
edition = "2021"
publish = false

[dependencies]
log = "*"
sp-core = "*"
sp-std = "*"
