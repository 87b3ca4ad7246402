[package]
name = "varint_simd_fair"
version = "0.1.0"
edition = "2021"
publish = false

[dependencies]
varint-simd = "*"
