[package]
name = "dod_pam_hwauth"
version = "0.1.0"
edition = "2021"
publish = false

[dependencies]
pcsc = "2"
libc = "0.2"
