[package]
name = "usiem_windns"
version = "0.1.0"
edition = "2021"
publish = false

[dependencies]
u-siem = "*"
