[package]
name = "camera_controls"
version = "0.1.0"
edition = "2021"
publish = false

[dependencies]
crossterm = "0.25"
glob = "0.3"
tui = "0.19"
v4l = "0.14"
