[package]
name = "furigana_fitter"
version = "0.1.0"
edition = "2021"
publish = false

[dependencies]
jp_utils = "*"
