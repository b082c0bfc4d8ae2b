[package]
name = "type_race"
version = "0.1.0"
edition = "2021"
publish = false

[dependencies]
anyhow = "1"
crossterm = "0.23"
fastrand = "1.9"
