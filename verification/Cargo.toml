[package]
name = "png_chunks"
version = "0.1.0"
edition = "2021"
publish = false

[dependencies]
crc = "*"
miniz_oxide = "*"
