[package]
name = "computor_v2"
version = "0.1.0"
edition = "2021"
publish = false

[dependencies]
crossterm = "0.26"
