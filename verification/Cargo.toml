[package]
name = "socktab"
version = "0.1.0"
edition = "2021"
publish = false

[dependencies]
netstat2 = "*"
sysinfo = "*"
