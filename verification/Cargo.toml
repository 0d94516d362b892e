[package]
name = "termgame"
version = "0.1.0"
edition = "2021"
publish = false

[dependencies]
crossterm = "0.13"
log = "0.4"
rand = "0.7"
simple-logging = "2.0"
yaml-rust = "0.4"
