[package]
name = "coreshift_lowlevel"
version = "0.1.1"
edition = "2021"
publish = false

[dependencies]
arrayvec = "0.7"
libc = "0.2"
serde = { version = "1", features = ["derive"] }
