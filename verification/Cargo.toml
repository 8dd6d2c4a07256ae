[package]
name = "yufi"
version = "0.1.0"
edition = "2021"
publish = false

[dependencies]
zbus = "5"
gtk4 = "=0.11.5"
