[package]
name = "fallow_cli"
version = "0.1.0"
edition = "2021"
publish = false

[dependencies]
serde = { version = "1", features = ["derive"] }
serde_json = "1"
clap = { version = "4", features = ["derive"] }
sha2 = "0.10"
libc = "0.2"
colored = "2"
dunce = "1"
rustc-hash = "2"
