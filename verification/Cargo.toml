[package]
name = "inferox"
version = "0.1.0"
edition = "2021"
publish = false

[dependencies]
byteorder = "1"
half = "2"
memmap2 = "0.9"
rand = "0.8"
serde = { version = "1", features = ["derive"] }
serde_json = "1"
