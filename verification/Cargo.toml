[package]
name = "kakarot_aec"
version = "0.1.0"
edition = "2021"
publish = false

[dependencies]
aec-rs = "*"
neon = "1"
