[package]
name = "pensel"
version = "0.1.0"
edition = "2021"
publish = false

[dependencies]
heapless = "0.7"
serialport = { version = "4", default-features = false }
ctrlc = "3"
