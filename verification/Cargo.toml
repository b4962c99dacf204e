[package]
name = "wow_vr_lib"
version = "0.1.0"
edition = "2021"
publish = false

[dependencies]
miniz_oxide = "=0.9.1"
