[package]
name = "mousekeys"
version = "0.1.0"
edition = "2021"
publish = false

[dependencies]
evdev = { version = "0.12", features = ["tokio"] }
tokio = { version = "1", features = ["macros", "rt", "time"] }
