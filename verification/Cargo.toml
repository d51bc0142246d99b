[package]
name = "orbital"
version = "0.1.0"
edition = "2021"
publish = false

[dependencies]
crossbeam = "=0.8.5"
once_cell = "=1.21.4"
serde_json = "=1.0.154"
rusty_v8 = "0.32"
nannou = "0.18"
pixels = "0.8"
winit = "0.26"
winit_input_helper = "0.11"
