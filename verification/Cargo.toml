[package]
name = "fountain_parser"
version = "0.1.0"
edition = "2021"
publish = false

[dependencies]
unicode-segmentation = "*"
uuid = "*"
enum-iterator = "*"
