[package]
name = "video_compressor"
version = "1.0.0"
edition = "2021"
publish = false

[dependencies]
clap = "4"
indicatif = "0.17"
walkdir = "2"
