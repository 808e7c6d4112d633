[package]
name = "bloomfilter_rs"
version = "0.1.0"
edition = "2021"
publish = false

[dependencies]
bitvec = "1"
md-5 = "0.10"
sha2 = "0.10"
