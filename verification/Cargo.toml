[package]
name = "easy_ssh_tui"
version = "0.1.1"
edition = "2021"
publish = false

[dependencies]
arboard = { version = "3", default-features = false }
crossterm = "0.28"
dirs = "5"
ratatui = "0.29"
ureq = "3"
