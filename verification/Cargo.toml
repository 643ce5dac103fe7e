[package]
name = "toomuch"
version = "0.1.0"
edition = "2021"
publish = false

[dependencies]
libc = "0.2"
nix = "0.26"
terminal_size = "0.4"
termios = "0.3"
