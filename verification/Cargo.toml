[package]
name = "font_codec"
version = "0.1.0"
edition = "2021"
publish = false

[dependencies]
kurbo = "*"
syn = "1"
proc-macro2 = "1"
