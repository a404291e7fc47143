[package]
name = "elkodon"
version = "0.1.0"
edition = "2021"
publish = false

[dependencies]
sha1_smol = "1"
termsize = "=0.1.9"
