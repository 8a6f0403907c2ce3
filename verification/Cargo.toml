[package]
name = "keyboard-debouncer"
version = "0.1.0"
edition = "2021"
publish = false

[dependencies]
chrono = "0.4"
colored = "2"
evdev = "0.12"
libc = "0.2"
rusqlite = { version = "0.31", features = ["bundled"] }
