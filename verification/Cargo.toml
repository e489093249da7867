[package]
name = "ftd_core"
version = "0.1.0"
edition = "2021"
publish = false

[dependencies]
anyhow = "1"
ctrlc = "3"
rusb = "0.9"
