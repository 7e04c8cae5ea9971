[package]
name = "sic"
version = "0.1.0"
edition = "2021"
publish = false

[dependencies]
image = "0.24"
boolean = "*"
clap = "2"
globwalk = "0.8"
wax = "0.6"
dunce = "1"
atty = "0.2"
anyhow = "1"
open = "*"
