[package]
name = "ash_renderer"
version = "0.1.0"
edition = "2021"
publish = false

[dependencies]
ash = "=0.38.0"
thiserror = "=2.0.21"
raw-window-handle = "=0.6.2"
