[package]
name = "akiv"
version = "0.1.0"
edition = "2021"
publish = false

[dependencies]
anyhow = "*"
chrono = "*"
directories = "*"
humantime = "*"
prettytable-rs = "*"
rusqlite = { version = "*", features = ["bundled"] }
structopt = "*"
textwrap = "*"
