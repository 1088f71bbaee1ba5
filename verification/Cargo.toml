[package]
name = "line_counter"
version = "0.1.0"
edition = "2021"
publish = false

[dependencies]
regex = "1"
windows = { version = "0.58", features = ["Win32_Foundation", "Win32_System_Console"] }
