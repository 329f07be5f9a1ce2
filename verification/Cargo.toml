[package]
name = "dackdb"
version = "0.1.0"
edition = "2021"
publish = false

[dependencies]
libduckdb-sys = { version = "=1.10506.1", default-features = false }
