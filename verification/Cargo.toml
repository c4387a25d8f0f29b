[package]
name = "infinite_rs"
version = "0.1.0"
edition = "2021"
publish = false

[dependencies]
bitflags = "2"
byteorder = "1"
deluxe = "0.5"
num_enum = "0.7"
proc-macro2 = "1"
quote = "1"
syn = "2"
thiserror = "2"
