[package]
name = "fltk_table"
version = "0.1.0"
edition = "2021"
publish = false

[dependencies]
fltk = "1"
