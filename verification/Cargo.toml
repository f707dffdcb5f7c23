[package]
name = "rftp"
version = "0.1.0"
edition = "2021"
publish = false

[dependencies]
base64 = "*"
textwrap = "*"
ssh2 = "*"
dirs = "*"
rpassword = "*"
crossbeam-channel = "*"
crossterm = "*"
tui = "*"
clap = "*"
