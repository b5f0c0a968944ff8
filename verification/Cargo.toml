[package]
name = "rusty_conway"
version = "0.1.0"
edition = "2021"
publish = false

[dependencies]
num-bigint = "*"
num-traits = "*"
exitcode = "*"
structopt = "*"
mortal = "*"
