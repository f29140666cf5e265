[package]
name = "fauxfs"
version = "0.1.0"
edition = "2021"
publish = false

[dependencies]
rand = "=0.8.8"
colored = "=2.2.0"
indicatif = "0.17"
