[package]
name = "audioinfo"
version = "0.1.0"
edition = "2021"
publish = false

[dependencies]
clap = "4"
claxon = "0.4"
crc32fast = "1"
hex = "0.4"
tracing = "0.1"
tracing-subscriber = "0.3"
walkdir = "2"
