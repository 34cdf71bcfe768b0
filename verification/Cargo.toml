[package]
name = "term_slots"
version = "0.1.0"
edition = "2021"
publish = false

[dependencies]
crossterm = "*"
rand = "*"
unicode-width = "*"
