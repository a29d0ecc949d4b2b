[package]
name = "life_torus"
version = "0.1.0"
edition = "2021"

[dependencies]
crossterm = "0.25"
rand = "0.8"
