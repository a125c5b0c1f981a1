[package]
name = "input_device"
version = "0.1.0"
edition = "2021"
publish = false

[dependencies]
embassy-futures = "0.1"
usbd-hid = "0.8"
