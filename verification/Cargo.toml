[package]
name = "nbs_cli"
version = "0.1.0"
edition = "2021"
publish = false

[dependencies]
anyhow = "1"
clap = { version = "4", features = ["derive"] }
console = "*"
cpal = "*"
crossbeam-utils = "*"
hound = "*"
indicatif = "*"
rtrb = "*"
walkdir = "2"
