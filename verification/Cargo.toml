[package]
name = "hydradesk"
version = "1.0.0"
edition = "2021"
publish = false

[dependencies]
anyhow = "1"
clap = { version = "4", features = ["derive"] }
colored = "2"
libc = "0.2"
rand = "0.8"
rpassword = "7"
