[package]
name = "themis"
version = "0.1.0"
edition = "2021"
publish = false

[dependencies]
glob = "*"
regex = "*"
notify = "*"
crossbeam-channel = "*"
open = "*"
bytesize = "*"
