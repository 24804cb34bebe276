[package]
name = "xray_supervisor"
version = "0.1.0"
edition = "2021"
publish = false

[dependencies]
sysinfo = "*"
rustem_proxy = "*"
fs_extra = "*"
