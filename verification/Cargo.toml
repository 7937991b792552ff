[package]
name = "joystick_bridge"
version = "0.1.0"
edition = "2021"
publish = false

[dependencies]
evdev = "0.12"
serialport = { version = "4", default-features = false }
