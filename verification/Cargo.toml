[package]
name = "gphoto_sort"
version = "0.1.0"
edition = "2021"
publish = false

[dependencies]
clap = "2"
regex = "1"
rust-crypto = "0.2"
walkdir = "2"
