[package]
name = "vfs_core"
version = "0.1.0"
edition = "2021"
publish = false

[dependencies]
axerrno = "*"
axio = "*"
bitflags = "2"
inherit-methods-macro = "*"
kspin = "*"
lock_api = "0.4"
