[package]
name = "coup"
version = "0.1.0"
edition = "2021"
publish = false

[dependencies]
anyhow = "1"
enumset = "1"
log = "0.4"
rand = "0.8"
structopt = "0.3"
