[package]
name = "cmux_herdr"
version = "0.1.0"
edition = "2021"
publish = false

[dependencies]
clap = "4"
rustix = { version = "*", features = ["fs", "process", "termios"] }
serde = { version = "1", features = ["derive"] }
serde_json = "1"
sha2 = "0.10"
tempfile = "3"
