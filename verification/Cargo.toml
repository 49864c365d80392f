[package]
name = "pytantivy"
version = "0.1.0"
edition = "2021"
publish = false

[dependencies]
tantivy = "=0.22.1"
