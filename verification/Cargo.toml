[package]
name = "remux_core"
version = "0.1.0"
edition = "2021"
publish = false

[dependencies]
crossterm = "*"
ratatui = "*"
mlua = { version = "*", features = ["lua54", "vendored"] }
dirs = "*"
unicode-width = "*"
