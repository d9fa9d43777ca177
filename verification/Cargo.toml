[package]
name = "vignette"
version = "0.1.0"
edition = "2021"
publish = false

[dependencies]
hex = "*"
libc = "*"
memmap = "*"
nix = { version = "*", features = ["signal"] }
serde = { version = "*", features = ["derive"] }
serde_json = "*"
unwind-sys = "*"
