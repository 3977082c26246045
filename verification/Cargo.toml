[package]
name = "jieba_navi_rs"
version = "0.1.0"
edition = "2021"
publish = false

[dependencies]
jieba-rs = "0.7"
once_cell = "1"
pyo3 = { version = "0.22", features = ["extension-module"] }
regex = "1"
