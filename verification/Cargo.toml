[package]
name = "pasfmt_core"
version = "0.1.0"
edition = "2021"
publish = false

[dependencies]
memchr = "2"
encoding_rs = "0.8"
glob = "0.3"
walkdir = "2"
rayon = "1"
log = "0.4"
stderrlog = "*"
