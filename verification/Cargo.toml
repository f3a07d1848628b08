[package]
name = "unwrapper"
version = "0.1.0"
edition = "2021"
publish = false

[dependencies]
base64 = "0.13"
bzip2 = "0.4"
flate2 = "1"
rand = "0.7"
rust-lzma = "*"
tar = "0.4"
tree_magic = "0.2"
unrar = "0.4"
zip = "0.5"

[dev-dependencies]
regex = "1"
