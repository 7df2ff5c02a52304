[package]
name = "apr"
version = "0.2.0"
edition = "2021"
publish = false

[dependencies]
alpm = "=5.0.2"
anyhow = "=1.0.104"
crossbeam-channel = "=0.5.17"
crossterm = "=0.28.1"
libc = "=0.2.191"
ratatui = "=0.29.0"
