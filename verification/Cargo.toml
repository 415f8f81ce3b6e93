[package]
name = "phips_game"
version = "0.1.0"
edition = "2021"
publish = false

[dependencies]
rand = "*"
crossterm = "*"
gilrs = "*"
device_query = "*"
