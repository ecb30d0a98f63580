[package]
name = "fmradio"
version = "0.1.0"
edition = "2021"
publish = false

[dependencies]
num-complex = "0.4"
num-traits = "0.2"
cpal = "*"
ctrlc = "3"
industrial-io = "*"
