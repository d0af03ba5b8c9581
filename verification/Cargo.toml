[package]
name = "sinfo"
version = "0.1.0"
edition = "2021"
publish = false

[dependencies]
crossterm = "0.28"
glob = "=0.3.4"
libc = "=0.2.191"
ratatui = "0.29"
thiserror = "=2.0.21"
