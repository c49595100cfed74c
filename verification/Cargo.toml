[package]
name = "ivm"
version = "0.1.0"
edition = "2021"
publish = false

[dependencies]
flate2 = "1"
tar = "0.4"
ureq = "3"
getopts = "0.2"
