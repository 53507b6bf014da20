[package]
name = "calendar_automerge"
version = "0.1.0"
edition = "2021"
publish = false

[dependencies]
chrono = "0.4"
eframe = "0.18"
num-traits = "0.2"
num-integer = "0.1"
