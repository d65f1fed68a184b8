[package]
name = "bytegrep"
version = "0.1.0"
edition = "2021"
publish = false

[dependencies]
ansi_term = "*"
atty = "*"
hex = "*"
itertools = "*"
structopt = "*"
strum = "*"
strum_macros = "*"
twoway = "*"
