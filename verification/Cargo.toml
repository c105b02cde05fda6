[package]
name = "codechain_process"
version = "0.1.0"
edition = "2021"
publish = false

[dependencies]
libc = "=0.2.191"
reopen = "0.3.0"
subprocess = "0.1.20"
