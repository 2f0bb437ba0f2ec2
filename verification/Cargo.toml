[package]
name = "apios_core"
version = "0.1.0"
edition = "2021"
publish = false

[dependencies]
regex = "1"
plist = "1"
chrono = "0.4"
walkdir = "2"
libc = "0.2"
rayon = "1"
clap = { version = "4", features = ["derive"] }

[dev-dependencies]
tempfile = "3"
