[package]
name = "items_dat"
version = "0.1.0"
edition = "2021"
publish = false

[dependencies]
byteorder = "1"
clap = "2"
serde = { version = "1", features = ["derive"] }
serde_json = "1"
