[package]
name = "alltools"
version = "0.1.0"
edition = "2021"
publish = false

[dependencies]
atty = "0.2"
byteorder = "1"
chrono = "0.4"
colored = "2"
getopts = "0.2"
ipconfig = "0.3"
rand = "0.8"
terminal_size = "0.1"
