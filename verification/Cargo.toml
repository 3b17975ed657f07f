[package]
name = "netmux"
version = "0.1.0"
edition = "2021"
publish = false

[dependencies]
mio = "0.6"
mio-extras = "2"
failure = "0.1"
log = "0.4"
