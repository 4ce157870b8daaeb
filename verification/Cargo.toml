[package]
name = "sewer56-archives-nx"
version = "0.1.0"
edition = "2021"
publish = false

[dependencies]
zstd = "0.13"
memchr = "2"
nanokit = "*"
xxhash-rust = { version = "0.8", features = ["xxh3"] }
lightweight-mmap = "*"
