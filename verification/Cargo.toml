[package]
name = "word_similarity"
version = "0.1.0"
edition = "2021"

[dependencies]
pyo3 = "*"
