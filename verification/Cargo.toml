[package]
name = "roselib"
version = "0.1.0"
edition = "2021"
publish = false

[dependencies]
byteorder = "1"
clap = "2"
failure = "0.1"
image = { version = "0.24", default-features = false, features = ["png"] }
serde = "1"
serde_derive = "1"
