[package]
name = "rltk_app"
version = "0.1.0"
edition = "2021"
publish = false

[dependencies]
rltk = "0.8"
specs = "0.16"
specs-derive = "0.4"
