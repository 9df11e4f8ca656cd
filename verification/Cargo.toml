[package]
name = "screen_pointer"
version = "0.1.0"
edition = "2021"
publish = false

[dependencies]
lazy_static = "=1.5.1"
parking_lot = "=0.13.0"
piston_window = "=0.148.0"
