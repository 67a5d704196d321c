[package]
name = "perfdroid"
version = "0.1.0"
edition = "2021"
publish = false

[dependencies]
adb_client = "*"
resvg = "*"
