[package]
name = "flowngin"
version = "0.1.0"
edition = "2021"
publish = false

[dependencies]
rapier3d = "=0.36.1"
glamx = "=0.3.1"
ctrlc = "=3.5.2"
